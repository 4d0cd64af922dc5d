use vstd::prelude::*;
use crate::numparse::{parse_unsigned, parse_u64_str, parse_usize_str};
use crate::text::{ascii_lowercase, chars_of, lowercase_range, trim, trim_bounds};

verus! {

/// The value of an environment setting as a character sequence, if it is set.
pub open spec fn raw_view(raw: Option<&str>) -> Option<Seq<char>> {
    match raw {
        Some(s) => Some(s@),
        None => None,
    }
}

/// A numeric setting: its value when it is set and parses as an unsigned
/// integer no larger than `max`, else `default`.
pub open spec fn setting_number(raw: Option<Seq<char>>, default: nat, max: nat) -> nat {
    match raw {
        Some(s) => match parse_unsigned(s, max) {
            Some(v) => v,
            None => default,
        },
        None => default,
    }
}

/// A boolean setting: its value trimmed and lowercased reads `1`, `true`,
/// `yes` or `on` for true, `0`, `false`, `no` or `off` for false; anything
/// else, or no value, gives `default`.
pub open spec fn setting_bool(raw: Option<Seq<char>>, default: bool) -> bool {
    match raw {
        Some(s) => {
            let n = ascii_lowercase(trim(s));
            if n == "1"@ || n == "true"@ || n == "yes"@ || n == "on"@ {
                true
            } else if n == "0"@ || n == "false"@ || n == "no"@ || n == "off"@ {
                false
            } else {
                default
            }
        },
        None => default,
    }
}

/// Reads a `u64` setting from its raw value, falling back to `default`.
pub fn parse_env_u64(raw: Option<&str>, default: u64) -> (v: u64)
    ensures
        v == setting_number(raw_view(raw), default as nat, u64::MAX as nat),
{
    match raw {
        Some(s) => match parse_u64_str(s) {
            Some(v) => v,
            None => default,
        },
        None => default,
    }
}

/// Reads a `usize` setting from its raw value, falling back to `default`.
pub fn parse_env_usize(raw: Option<&str>, default: usize) -> (v: usize)
    ensures
        v == setting_number(raw_view(raw), default as nat, usize::MAX as nat),
{
    match raw {
        Some(s) => match parse_usize_str(s) {
            Some(v) => v,
            None => default,
        },
        None => default,
    }
}

fn lowered_is(n: &Vec<char>, lit: &str) -> (b: bool)
    ensures
        b == (n@ == lit@),
{
    let l = chars_of(lit);
    assert(n@.subrange(0, n@.len() as int) =~= n@);
    crate::text::range_eq(n, 0, n.len(), &l)
}

/// Reads a boolean setting from its raw value, falling back to `default`.
pub fn parse_env_bool(raw: Option<&str>, default: bool) -> (v: bool)
    ensures
        v == setting_bool(raw_view(raw), default),
{
    match raw {
        Some(s) => {
            let chars = chars_of(s);
            let (start, end) = trim_bounds(&chars);
            let n = lowercase_range(&chars, start, end);
            proof {
                assert(n@ == ascii_lowercase(trim(s@)));
            }
            if lowered_is(&n, "1") || lowered_is(&n, "true") || lowered_is(&n, "yes")
                || lowered_is(&n, "on") {
                true
            } else if lowered_is(&n, "0") || lowered_is(&n, "false") || lowered_is(&n, "no")
                || lowered_is(&n, "off") {
                false
            } else {
                default
            }
        },
        None => default,
    }
}

/// A timeout of `seconds` seconds, where 0 means none.
pub fn timeout_duration_from_secs(seconds: u64) -> (t: Option<u64>)
    ensures
        t == (if seconds == 0 { None } else { Some(seconds) }),
{
    if seconds == 0 {
        None
    } else {
        Some(seconds)
    }
}
pub const MAX_FINGERPRINT_FILE_BYTES: u64 = 16 * 1024 * 1024;
pub const MAX_FINGERPRINT_TOTAL_BYTES: u64 = 512 * 1024 * 1024;
pub const FINGERPRINT_TIMEOUT_MS: u64 = 30_000;
pub const FINGERPRINT_MTIME_RECHECK_WINDOW_MS: u64 = 2_000;
pub const MAX_CACHE_ENTRY_BYTES: u64 = 10 * 1024 * 1024;
pub const MAX_FINGERPRINT_INDEX_BYTES: u64 = 32 * 1024 * 1024;
pub const MAX_ARTIFACT_INDEX_BYTES: u64 = 32 * 1024 * 1024;
pub const DEFAULT_MAX_RESTORE_EXISTING_HASH_BYTES: u64 = 1024 * 1024;
pub const MAX_CAPTURE_STDOUT_BYTES: u64 = 16 * 1024 * 1024;
pub const MAX_CAPTURE_STDERR_BYTES: u64 = 16 * 1024 * 1024;
pub const DEFAULT_MAX_CACHE_BYTES: u64 = 10 * 1024 * 1024 * 1024;
pub const DEFAULT_CACHE_BUDGET_ENFORCE_EVERY: u64 = 8;
pub const DEFAULT_CACHE_BUDGET_MIN_INTERVAL_MS: u64 = 5 * 60 * 1000;
pub const DEFAULT_METADATA_RESULT_CACHE_MAX_BYTES: u64 = 256 * 1024 * 1024;
pub const DEFAULT_NATIVE_COMPILE_SESSION_CACHE_MAX_BYTES: u64 = 1024 * 1024 * 1024;
pub const DEFAULT_NATIVE_COMPILE_CONTEXT_CACHE_MAX_BYTES: u64 = 128 * 1024 * 1024;
pub const DEFAULT_NATIVE_COMPILE_SESSION_CACHE_TTL_MS: u64 = 30 * 60 * 1000;
pub const DEFAULT_NATIVE_COMPILE_CONTEXT_CACHE_TTL_MS: u64 = 30 * 60 * 1000;
pub const DEFAULT_NATIVE_PROGRESS_HEARTBEAT_SECS: u64 = 5;
pub const DEFAULT_NATIVE_COMPILE_SESSION_MEMORY_MULTIPLIER: u64 = 64;
pub const DEFAULT_NATIVE_COMPILE_SESSION_MEMORY_BASE_OVERHEAD_BYTES: u64 = 32 * 1024 * 1024;
pub const DEFAULT_DAEMON_SHARED_CACHE_MAX_BYTES: u64 = 8 * 1024 * 1024 * 1024;
pub const DEFAULT_ASYNC_PERSIST_ERROR_LOG_MAX_BYTES: u64 = 4 * 1024 * 1024;
pub const MAX_FINGERPRINT_FILES: usize = 50_000;
pub const DEFAULT_SESSION_INPUT_CACHE_MAX_ENTRIES: usize = 1024;
pub const DEFAULT_FINGERPRINT_INDEX_CACHE_MAX_ENTRIES: usize = 512;
pub const DEFAULT_BUILD_ENTRY_CACHE_MAX_ENTRIES: usize = 1024;
pub const DEFAULT_ARTIFACT_INDEX_CACHE_MAX_ENTRIES: usize = 512;
pub const DEFAULT_DAEMON_BUILD_PLAN_CACHE_MAX_ENTRIES: usize = 512;
pub const DEFAULT_DAEMON_LOCK_HASH_CACHE_MAX_ENTRIES: usize = 512;
pub const DEFAULT_METADATA_RESULT_CACHE_MAX_ENTRIES: usize = 512;
pub const DEFAULT_NATIVE_COMPILE_SESSION_CACHE_MAX_ENTRIES: usize = 16;
pub const DEFAULT_NATIVE_COMPILE_CONTEXT_CACHE_MAX_ENTRIES: usize = 256;
pub const DEFAULT_NATIVE_INCREMENTAL_MAX_CHANGED_FILES: usize = 256;
pub const DEFAULT_NATIVE_PROGRESS_COMPILE_BATCH_SIZE: usize = 0;
pub const DEFAULT_NATIVE_MAX_CASM_BYTECODE_SIZE: usize = 81_290;
pub const DEFAULT_DAEMON_MAX_CONNECTION_HANDLERS: usize = 256;
pub const ASYNC_PERSIST_ERROR_QUEUE_LIMIT: usize = 32;
pub const DEFAULT_CACHE_OBJECT_HASH_MEMO_MAX_ENTRIES: usize = 4096;
pub const DEFAULT_NATIVE_IMPACTED_SUBSET_ENABLED: bool = true;
pub const DEFAULT_NATIVE_CAPTURE_STATEMENT_LOCATIONS: bool = true;
pub const DEFAULT_NATIVE_CAPTURE_STATEMENT_LOCATIONS_ON_COLD: bool = false;
pub const DEFAULT_NATIVE_PROGRESS_ENABLED: bool = false;
pub const DEFAULT_NATIVE_DEPENDENCY_METADATA_ENABLED: bool = false;
pub const DEFAULT_NATIVE_EAGER_KEYED_SLOT_PRIME: bool = true;
pub const DEFAULT_DAEMON_SHARED_CACHE_ENABLED: bool = true;
pub const DEFAULT_NATIVE_CRATE_CACHE_ENABLED: bool = true;
pub const DEFAULT_UC_NATIVE_DISALLOW_SCARB_FALLBACK: bool = false;
pub const DEFAULT_FAIL_ON_ASYNC_CACHE_ERROR: bool = false;
pub const DEFAULT_DAEMON_ASYNC_CACHE_PERSIST: bool = false;
pub const DEFAULT_DAEMON_CAPTURE_OUTPUT: bool = true;

/// Largest source file that fingerprinting hashes, in bytes.
pub fn max_fingerprint_file_bytes(raw: Option<&str>) -> (v: u64)
    ensures
        v == setting_number(raw_view(raw), MAX_FINGERPRINT_FILE_BYTES as nat, u64::MAX as nat),
{
    parse_env_u64(raw, MAX_FINGERPRINT_FILE_BYTES)
}

/// Budget for all fingerprinted source bytes together.
pub fn max_fingerprint_total_bytes(raw: Option<&str>) -> (v: u64)
    ensures
        v == setting_number(raw_view(raw), MAX_FINGERPRINT_TOTAL_BYTES as nat, u64::MAX as nat),
{
    parse_env_u64(raw, MAX_FINGERPRINT_TOTAL_BYTES)
}

/// Time budget for one fingerprint computation, in milliseconds.
pub fn fingerprint_timeout_ms(raw: Option<&str>) -> (v: u64)
    ensures
        v == setting_number(raw_view(raw), FINGERPRINT_TIMEOUT_MS as nat, u64::MAX as nat),
{
    parse_env_u64(raw, FINGERPRINT_TIMEOUT_MS)
}

/// Files modified this recently (in milliseconds) are hashed again even when their index entry matches.
pub fn fingerprint_mtime_recheck_window_ms(raw: Option<&str>) -> (v: u64)
    ensures
        v == setting_number(raw_view(raw), FINGERPRINT_MTIME_RECHECK_WINDOW_MS as nat, u64::MAX as nat),
{
    parse_env_u64(raw, FINGERPRINT_MTIME_RECHECK_WINDOW_MS)
}

/// Largest build cache entry file that is read, in bytes.
pub fn max_cache_entry_bytes(raw: Option<&str>) -> (v: u64)
    ensures
        v == setting_number(raw_view(raw), MAX_CACHE_ENTRY_BYTES as nat, u64::MAX as nat),
{
    parse_env_u64(raw, MAX_CACHE_ENTRY_BYTES)
}

/// Largest fingerprint index file that is read, in bytes.
pub fn max_fingerprint_index_bytes(raw: Option<&str>) -> (v: u64)
    ensures
        v == setting_number(raw_view(raw), MAX_FINGERPRINT_INDEX_BYTES as nat, u64::MAX as nat),
{
    parse_env_u64(raw, MAX_FINGERPRINT_INDEX_BYTES)
}

/// Largest artifact index file that is read, in bytes.
pub fn max_artifact_index_bytes(raw: Option<&str>) -> (v: u64)
    ensures
        v == setting_number(raw_view(raw), MAX_ARTIFACT_INDEX_BYTES as nat, u64::MAX as nat),
{
    parse_env_u64(raw, MAX_ARTIFACT_INDEX_BYTES)
}

/// Largest existing artifact that a restore hashes to prove it current, in bytes.
pub fn max_restore_existing_hash_bytes(raw: Option<&str>) -> (v: u64)
    ensures
        v == setting_number(raw_view(raw), DEFAULT_MAX_RESTORE_EXISTING_HASH_BYTES as nat, u64::MAX as nat),
{
    parse_env_u64(raw, DEFAULT_MAX_RESTORE_EXISTING_HASH_BYTES)
}

/// Captured standard output limit, in bytes.
pub fn max_capture_stdout_bytes(raw: Option<&str>) -> (v: u64)
    ensures
        v == setting_number(raw_view(raw), MAX_CAPTURE_STDOUT_BYTES as nat, u64::MAX as nat),
{
    parse_env_u64(raw, MAX_CAPTURE_STDOUT_BYTES)
}

/// Captured standard error limit, in bytes.
pub fn max_capture_stderr_bytes(raw: Option<&str>) -> (v: u64)
    ensures
        v == setting_number(raw_view(raw), MAX_CAPTURE_STDERR_BYTES as nat, u64::MAX as nat),
{
    parse_env_u64(raw, MAX_CAPTURE_STDERR_BYTES)
}

/// Size budget of the on-disk build cache, in bytes (0 disables eviction).
pub fn max_cache_bytes(raw: Option<&str>) -> (v: u64)
    ensures
        v == setting_number(raw_view(raw), DEFAULT_MAX_CACHE_BYTES as nat, u64::MAX as nat),
{
    parse_env_u64(raw, DEFAULT_MAX_CACHE_BYTES)
}

/// The cache budget is enforced on every this many persists (at least 1).
pub fn cache_budget_enforce_every(raw: Option<&str>) -> (v: u64)
    ensures
        v == (if setting_number(raw_view(raw), DEFAULT_CACHE_BUDGET_ENFORCE_EVERY as nat, u64::MAX as nat) >= 1 {
            setting_number(raw_view(raw), DEFAULT_CACHE_BUDGET_ENFORCE_EVERY as nat, u64::MAX as nat)
        } else {
            1
        }),
{
    let v = parse_env_u64(raw, DEFAULT_CACHE_BUDGET_ENFORCE_EVERY);
    if v >= 1 {
        v
    } else {
        1
    }
}

/// Least time between two cache budget enforcements, in milliseconds.
pub fn cache_budget_min_interval_ms(raw: Option<&str>) -> (v: u64)
    ensures
        v == setting_number(raw_view(raw), DEFAULT_CACHE_BUDGET_MIN_INTERVAL_MS as nat, u64::MAX as nat),
{
    parse_env_u64(raw, DEFAULT_CACHE_BUDGET_MIN_INTERVAL_MS)
}

/// Byte budget of the in-memory metadata result cache.
pub fn metadata_result_cache_max_bytes(raw: Option<&str>) -> (v: u64)
    ensures
        v == setting_number(raw_view(raw), DEFAULT_METADATA_RESULT_CACHE_MAX_BYTES as nat, u64::MAX as nat),
{
    parse_env_u64(raw, DEFAULT_METADATA_RESULT_CACHE_MAX_BYTES)
}

/// Byte budget of the native compile session cache.
pub fn native_compile_session_cache_max_bytes(raw: Option<&str>) -> (v: u64)
    ensures
        v == setting_number(raw_view(raw), DEFAULT_NATIVE_COMPILE_SESSION_CACHE_MAX_BYTES as nat, u64::MAX as nat),
{
    parse_env_u64(raw, DEFAULT_NATIVE_COMPILE_SESSION_CACHE_MAX_BYTES)
}

/// Byte budget of the native compile context cache.
pub fn native_compile_context_cache_max_bytes(raw: Option<&str>) -> (v: u64)
    ensures
        v == setting_number(raw_view(raw), DEFAULT_NATIVE_COMPILE_CONTEXT_CACHE_MAX_BYTES as nat, u64::MAX as nat),
{
    parse_env_u64(raw, DEFAULT_NATIVE_COMPILE_CONTEXT_CACHE_MAX_BYTES)
}

/// Idle time after which a native compile session expires, in milliseconds (0: never).
pub fn native_compile_session_cache_ttl_ms(raw: Option<&str>) -> (v: u64)
    ensures
        v == setting_number(raw_view(raw), DEFAULT_NATIVE_COMPILE_SESSION_CACHE_TTL_MS as nat, u64::MAX as nat),
{
    parse_env_u64(raw, DEFAULT_NATIVE_COMPILE_SESSION_CACHE_TTL_MS)
}

/// Idle time after which a native compile context expires, in milliseconds (0: never).
pub fn native_compile_context_cache_ttl_ms(raw: Option<&str>) -> (v: u64)
    ensures
        v == setting_number(raw_view(raw), DEFAULT_NATIVE_COMPILE_CONTEXT_CACHE_TTL_MS as nat, u64::MAX as nat),
{
    parse_env_u64(raw, DEFAULT_NATIVE_COMPILE_CONTEXT_CACHE_TTL_MS)
}

/// Interval of native progress heartbeats, in seconds (0 disables them).
pub fn native_progress_heartbeat_secs(raw: Option<&str>) -> (v: u64)
    ensures
        v == setting_number(raw_view(raw), DEFAULT_NATIVE_PROGRESS_HEARTBEAT_SECS as nat, u64::MAX as nat),
{
    parse_env_u64(raw, DEFAULT_NATIVE_PROGRESS_HEARTBEAT_SECS)
}

/// Multiplier from tracked source bytes to a session's estimated memory (at least 1).
pub fn native_compile_session_memory_multiplier(raw: Option<&str>) -> (v: u64)
    ensures
        v == (if setting_number(raw_view(raw), DEFAULT_NATIVE_COMPILE_SESSION_MEMORY_MULTIPLIER as nat, u64::MAX as nat) >= 1 {
            setting_number(raw_view(raw), DEFAULT_NATIVE_COMPILE_SESSION_MEMORY_MULTIPLIER as nat, u64::MAX as nat)
        } else {
            1
        }),
{
    let v = parse_env_u64(raw, DEFAULT_NATIVE_COMPILE_SESSION_MEMORY_MULTIPLIER);
    if v >= 1 {
        v
    } else {
        1
    }
}

/// Fixed memory estimate of every native compile session, in bytes.
pub fn native_compile_session_memory_base_overhead_bytes(raw: Option<&str>) -> (v: u64)
    ensures
        v == setting_number(raw_view(raw), DEFAULT_NATIVE_COMPILE_SESSION_MEMORY_BASE_OVERHEAD_BYTES as nat, u64::MAX as nat),
{
    parse_env_u64(raw, DEFAULT_NATIVE_COMPILE_SESSION_MEMORY_BASE_OVERHEAD_BYTES)
}

/// Size budget of the daemon's shared cache, in bytes.
pub fn daemon_shared_cache_max_bytes(raw: Option<&str>) -> (v: u64)
    ensures
        v == setting_number(raw_view(raw), DEFAULT_DAEMON_SHARED_CACHE_MAX_BYTES as nat, u64::MAX as nat),
{
    parse_env_u64(raw, DEFAULT_DAEMON_SHARED_CACHE_MAX_BYTES)
}

/// Size at which the async persist error log is rotated, in bytes (0: never).
pub fn async_persist_error_log_max_bytes(raw: Option<&str>) -> (v: u64)
    ensures
        v == setting_number(raw_view(raw), DEFAULT_ASYNC_PERSIST_ERROR_LOG_MAX_BYTES as nat, u64::MAX as nat),
{
    parse_env_u64(raw, DEFAULT_ASYNC_PERSIST_ERROR_LOG_MAX_BYTES)
}

/// Most files one fingerprint covers.
pub fn max_fingerprint_files(raw: Option<&str>) -> (v: usize)
    ensures
        v == setting_number(raw_view(raw), MAX_FINGERPRINT_FILES as nat, usize::MAX as nat),
{
    parse_env_usize(raw, MAX_FINGERPRINT_FILES)
}

/// Capacity of the session input cache (at least 1).
pub fn session_input_cache_max_entries(raw: Option<&str>) -> (v: usize)
    ensures
        v == (if setting_number(raw_view(raw), DEFAULT_SESSION_INPUT_CACHE_MAX_ENTRIES as nat, usize::MAX as nat) >= 1 {
            setting_number(raw_view(raw), DEFAULT_SESSION_INPUT_CACHE_MAX_ENTRIES as nat, usize::MAX as nat)
        } else {
            1
        }),
{
    let v = parse_env_usize(raw, DEFAULT_SESSION_INPUT_CACHE_MAX_ENTRIES);
    if v >= 1 {
        v
    } else {
        1
    }
}

/// Capacity of the in-memory fingerprint index cache (at least 1).
pub fn fingerprint_index_cache_max_entries(raw: Option<&str>) -> (v: usize)
    ensures
        v == (if setting_number(raw_view(raw), DEFAULT_FINGERPRINT_INDEX_CACHE_MAX_ENTRIES as nat, usize::MAX as nat) >= 1 {
            setting_number(raw_view(raw), DEFAULT_FINGERPRINT_INDEX_CACHE_MAX_ENTRIES as nat, usize::MAX as nat)
        } else {
            1
        }),
{
    let v = parse_env_usize(raw, DEFAULT_FINGERPRINT_INDEX_CACHE_MAX_ENTRIES);
    if v >= 1 {
        v
    } else {
        1
    }
}

/// Capacity of the in-memory build entry cache (at least 1).
pub fn build_entry_cache_max_entries(raw: Option<&str>) -> (v: usize)
    ensures
        v == (if setting_number(raw_view(raw), DEFAULT_BUILD_ENTRY_CACHE_MAX_ENTRIES as nat, usize::MAX as nat) >= 1 {
            setting_number(raw_view(raw), DEFAULT_BUILD_ENTRY_CACHE_MAX_ENTRIES as nat, usize::MAX as nat)
        } else {
            1
        }),
{
    let v = parse_env_usize(raw, DEFAULT_BUILD_ENTRY_CACHE_MAX_ENTRIES);
    if v >= 1 {
        v
    } else {
        1
    }
}

/// Capacity of the in-memory artifact index cache (at least 1).
pub fn artifact_index_cache_max_entries(raw: Option<&str>) -> (v: usize)
    ensures
        v == (if setting_number(raw_view(raw), DEFAULT_ARTIFACT_INDEX_CACHE_MAX_ENTRIES as nat, usize::MAX as nat) >= 1 {
            setting_number(raw_view(raw), DEFAULT_ARTIFACT_INDEX_CACHE_MAX_ENTRIES as nat, usize::MAX as nat)
        } else {
            1
        }),
{
    let v = parse_env_usize(raw, DEFAULT_ARTIFACT_INDEX_CACHE_MAX_ENTRIES);
    if v >= 1 {
        v
    } else {
        1
    }
}

/// Capacity of the daemon build plan cache (at least 1).
pub fn daemon_build_plan_cache_max_entries(raw: Option<&str>) -> (v: usize)
    ensures
        v == (if setting_number(raw_view(raw), DEFAULT_DAEMON_BUILD_PLAN_CACHE_MAX_ENTRIES as nat, usize::MAX as nat) >= 1 {
            setting_number(raw_view(raw), DEFAULT_DAEMON_BUILD_PLAN_CACHE_MAX_ENTRIES as nat, usize::MAX as nat)
        } else {
            1
        }),
{
    let v = parse_env_usize(raw, DEFAULT_DAEMON_BUILD_PLAN_CACHE_MAX_ENTRIES);
    if v >= 1 {
        v
    } else {
        1
    }
}

/// Capacity of the daemon lockfile hash cache (at least 1).
pub fn daemon_lock_hash_cache_max_entries(raw: Option<&str>) -> (v: usize)
    ensures
        v == (if setting_number(raw_view(raw), DEFAULT_DAEMON_LOCK_HASH_CACHE_MAX_ENTRIES as nat, usize::MAX as nat) >= 1 {
            setting_number(raw_view(raw), DEFAULT_DAEMON_LOCK_HASH_CACHE_MAX_ENTRIES as nat, usize::MAX as nat)
        } else {
            1
        }),
{
    let v = parse_env_usize(raw, DEFAULT_DAEMON_LOCK_HASH_CACHE_MAX_ENTRIES);
    if v >= 1 {
        v
    } else {
        1
    }
}

/// Capacity of the metadata result cache (at least 1).
pub fn metadata_result_cache_max_entries(raw: Option<&str>) -> (v: usize)
    ensures
        v == (if setting_number(raw_view(raw), DEFAULT_METADATA_RESULT_CACHE_MAX_ENTRIES as nat, usize::MAX as nat) >= 1 {
            setting_number(raw_view(raw), DEFAULT_METADATA_RESULT_CACHE_MAX_ENTRIES as nat, usize::MAX as nat)
        } else {
            1
        }),
{
    let v = parse_env_usize(raw, DEFAULT_METADATA_RESULT_CACHE_MAX_ENTRIES);
    if v >= 1 {
        v
    } else {
        1
    }
}

/// Capacity of the native compile session cache (at least 1).
pub fn native_compile_session_cache_max_entries(raw: Option<&str>) -> (v: usize)
    ensures
        v == (if setting_number(raw_view(raw), DEFAULT_NATIVE_COMPILE_SESSION_CACHE_MAX_ENTRIES as nat, usize::MAX as nat) >= 1 {
            setting_number(raw_view(raw), DEFAULT_NATIVE_COMPILE_SESSION_CACHE_MAX_ENTRIES as nat, usize::MAX as nat)
        } else {
            1
        }),
{
    let v = parse_env_usize(raw, DEFAULT_NATIVE_COMPILE_SESSION_CACHE_MAX_ENTRIES);
    if v >= 1 {
        v
    } else {
        1
    }
}

/// Capacity of the native compile context cache (at least 1).
pub fn native_compile_context_cache_max_entries(raw: Option<&str>) -> (v: usize)
    ensures
        v == (if setting_number(raw_view(raw), DEFAULT_NATIVE_COMPILE_CONTEXT_CACHE_MAX_ENTRIES as nat, usize::MAX as nat) >= 1 {
            setting_number(raw_view(raw), DEFAULT_NATIVE_COMPILE_CONTEXT_CACHE_MAX_ENTRIES as nat, usize::MAX as nat)
        } else {
            1
        }),
{
    let v = parse_env_usize(raw, DEFAULT_NATIVE_COMPILE_CONTEXT_CACHE_MAX_ENTRIES);
    if v >= 1 {
        v
    } else {
        1
    }
}

/// Most changed and removed files an incremental native refresh handles.
pub fn native_incremental_max_changed_files(raw: Option<&str>) -> (v: usize)
    ensures
        v == setting_number(raw_view(raw), DEFAULT_NATIVE_INCREMENTAL_MAX_CHANGED_FILES as nat, usize::MAX as nat),
{
    parse_env_usize(raw, DEFAULT_NATIVE_INCREMENTAL_MAX_CHANGED_FILES)
}

/// Contracts per native compile batch (0: all in one batch).
pub fn load_native_progress_compile_batch_size(raw: Option<&str>) -> (v: usize)
    ensures
        v == setting_number(raw_view(raw), DEFAULT_NATIVE_PROGRESS_COMPILE_BATCH_SIZE as nat, usize::MAX as nat),
{
    parse_env_usize(raw, DEFAULT_NATIVE_PROGRESS_COMPILE_BATCH_SIZE)
}

/// Starknet CASM bytecode limit used by native compile.
pub fn native_max_casm_bytecode_size(raw: Option<&str>) -> (v: usize)
    ensures
        v == setting_number(raw_view(raw), DEFAULT_NATIVE_MAX_CASM_BYTECODE_SIZE as nat, usize::MAX as nat),
{
    parse_env_usize(raw, DEFAULT_NATIVE_MAX_CASM_BYTECODE_SIZE)
}

/// Most daemon connections handled at once (at least 1).
pub fn daemon_max_connection_handlers(raw: Option<&str>) -> (v: usize)
    ensures
        v == (if setting_number(raw_view(raw), DEFAULT_DAEMON_MAX_CONNECTION_HANDLERS as nat, usize::MAX as nat) >= 1 {
            setting_number(raw_view(raw), DEFAULT_DAEMON_MAX_CONNECTION_HANDLERS as nat, usize::MAX as nat)
        } else {
            1
        }),
{
    let v = parse_env_usize(raw, DEFAULT_DAEMON_MAX_CONNECTION_HANDLERS);
    if v >= 1 {
        v
    } else {
        1
    }
}

/// Most async persist errors kept for reporting (at least 1).
pub fn async_persist_error_queue_limit(raw: Option<&str>) -> (v: usize)
    ensures
        v == (if setting_number(raw_view(raw), ASYNC_PERSIST_ERROR_QUEUE_LIMIT as nat, usize::MAX as nat) >= 1 {
            setting_number(raw_view(raw), ASYNC_PERSIST_ERROR_QUEUE_LIMIT as nat, usize::MAX as nat)
        } else {
            1
        }),
{
    let v = parse_env_usize(raw, ASYNC_PERSIST_ERROR_QUEUE_LIMIT);
    if v >= 1 {
        v
    } else {
        1
    }
}

/// Capacity of the cache object hash memo (at least 1).
pub fn cache_object_hash_memo_max_entries(raw: Option<&str>) -> (v: usize)
    ensures
        v == (if setting_number(raw_view(raw), DEFAULT_CACHE_OBJECT_HASH_MEMO_MAX_ENTRIES as nat, usize::MAX as nat) >= 1 {
            setting_number(raw_view(raw), DEFAULT_CACHE_OBJECT_HASH_MEMO_MAX_ENTRIES as nat, usize::MAX as nat)
        } else {
            1
        }),
{
    let v = parse_env_usize(raw, DEFAULT_CACHE_OBJECT_HASH_MEMO_MAX_ENTRIES);
    if v >= 1 {
        v
    } else {
        1
    }
}

/// Whether native builds compile only the contracts a change reaches.
pub fn native_impacted_subset_enabled(raw: Option<&str>) -> (v: bool)
    ensures
        v == setting_bool(raw_view(raw), DEFAULT_NATIVE_IMPACTED_SUBSET_ENABLED),
{
    parse_env_bool(raw, DEFAULT_NATIVE_IMPACTED_SUBSET_ENABLED)
}

/// Whether native builds record statement locations.
pub fn native_capture_statement_locations(raw: Option<&str>) -> (v: bool)
    ensures
        v == setting_bool(raw_view(raw), DEFAULT_NATIVE_CAPTURE_STATEMENT_LOCATIONS),
{
    parse_env_bool(raw, DEFAULT_NATIVE_CAPTURE_STATEMENT_LOCATIONS)
}

/// Whether cold native builds record statement locations.
pub fn native_capture_statement_locations_on_cold(raw: Option<&str>) -> (v: bool)
    ensures
        v == setting_bool(raw_view(raw), DEFAULT_NATIVE_CAPTURE_STATEMENT_LOCATIONS_ON_COLD),
{
    parse_env_bool(raw, DEFAULT_NATIVE_CAPTURE_STATEMENT_LOCATIONS_ON_COLD)
}

/// Whether native builds report progress.
pub fn native_progress_enabled(raw: Option<&str>) -> (v: bool)
    ensures
        v == setting_bool(raw_view(raw), DEFAULT_NATIVE_PROGRESS_ENABLED),
{
    parse_env_bool(raw, DEFAULT_NATIVE_PROGRESS_ENABLED)
}

/// Whether native builds read dependency metadata.
pub fn native_dependency_metadata_enabled(raw: Option<&str>) -> (v: bool)
    ensures
        v == setting_bool(raw_view(raw), DEFAULT_NATIVE_DEPENDENCY_METADATA_ENABLED),
{
    parse_env_bool(raw, DEFAULT_NATIVE_DEPENDENCY_METADATA_ENABLED)
}

/// Whether native sessions prime their keyed file slots eagerly.
pub fn native_eager_keyed_slot_prime_enabled(raw: Option<&str>) -> (v: bool)
    ensures
        v == setting_bool(raw_view(raw), DEFAULT_NATIVE_EAGER_KEYED_SLOT_PRIME),
{
    parse_env_bool(raw, DEFAULT_NATIVE_EAGER_KEYED_SLOT_PRIME)
}

/// Whether the daemon shares its cache between workspaces.
pub fn daemon_shared_cache_enabled(raw: Option<&str>) -> (v: bool)
    ensures
        v == setting_bool(raw_view(raw), DEFAULT_DAEMON_SHARED_CACHE_ENABLED),
{
    parse_env_bool(raw, DEFAULT_DAEMON_SHARED_CACHE_ENABLED)
}

/// Whether native builds keep a crate cache.
pub fn native_crate_cache_enabled(raw: Option<&str>) -> (v: bool)
    ensures
        v == setting_bool(raw_view(raw), DEFAULT_NATIVE_CRATE_CACHE_ENABLED),
{
    parse_env_bool(raw, DEFAULT_NATIVE_CRATE_CACHE_ENABLED)
}

/// Whether a failed native build may not fall back to Scarb.
pub fn native_disallow_scarb_fallback(raw: Option<&str>) -> (v: bool)
    ensures
        v == setting_bool(raw_view(raw), DEFAULT_UC_NATIVE_DISALLOW_SCARB_FALLBACK),
{
    parse_env_bool(raw, DEFAULT_UC_NATIVE_DISALLOW_SCARB_FALLBACK)
}

/// Whether an async cache persist error fails the build.
pub fn fail_on_async_cache_error(raw: Option<&str>) -> (v: bool)
    ensures
        v == setting_bool(raw_view(raw), DEFAULT_FAIL_ON_ASYNC_CACHE_ERROR),
{
    parse_env_bool(raw, DEFAULT_FAIL_ON_ASYNC_CACHE_ERROR)
}

/// Whether the daemon persists cache entries in the background.
pub fn daemon_async_cache_persist_enabled(raw: Option<&str>) -> (v: bool)
    ensures
        v == setting_bool(raw_view(raw), DEFAULT_DAEMON_ASYNC_CACHE_PERSIST),
{
    parse_env_bool(raw, DEFAULT_DAEMON_ASYNC_CACHE_PERSIST)
}

/// Whether daemon builds capture their output.
pub fn daemon_capture_output_enabled(raw: Option<&str>) -> (v: bool)
    ensures
        v == setting_bool(raw_view(raw), DEFAULT_DAEMON_CAPTURE_OUTPUT),
{
    parse_env_bool(raw, DEFAULT_DAEMON_CAPTURE_OUTPUT)
}

pub const DEFAULT_NATIVE_CRATE_CACHE_MAX_BYTES: u64 = 512 * 1024 * 1024;

/// The largest single native crate cache blob, and so the least crate cache
/// budget that makes sense.
pub const MAX_NATIVE_CRATE_CACHE_BLOB_BYTES: u64 = 128 * 1024 * 1024;

/// Byte budget of the native crate cache; a configured budget below one
/// blob is raised to one blob.
pub fn native_crate_cache_max_bytes(raw: Option<&str>) -> (v: u64)
    ensures
        v == (if setting_number(raw_view(raw), DEFAULT_NATIVE_CRATE_CACHE_MAX_BYTES as nat, u64::MAX as nat)
            < MAX_NATIVE_CRATE_CACHE_BLOB_BYTES {
            MAX_NATIVE_CRATE_CACHE_BLOB_BYTES as nat
        } else {
            setting_number(raw_view(raw), DEFAULT_NATIVE_CRATE_CACHE_MAX_BYTES as nat, u64::MAX as nat)
        }),
{
    let configured = parse_env_u64(raw, DEFAULT_NATIVE_CRATE_CACHE_MAX_BYTES);
    if configured < MAX_NATIVE_CRATE_CACHE_BLOB_BYTES {
        return MAX_NATIVE_CRATE_CACHE_BLOB_BYTES;
    }
    configured
}

/// Contracts per native compile batch; read once per process in the
/// original, with the same value.
pub fn native_progress_compile_batch_size(raw: Option<&str>) -> (v: usize)
    ensures
        v == setting_number(raw_view(raw), DEFAULT_NATIVE_PROGRESS_COMPILE_BATCH_SIZE as nat, usize::MAX as nat),
{
    load_native_progress_compile_batch_size(raw)
}

/// A timeout setting in seconds, where 0 means none.
pub open spec fn timeout_setting(raw: Option<Seq<char>>, default: u64) -> Option<u64> {
    let secs = setting_number(raw, default as nat, u64::MAX as nat);
    if secs == 0 {
        None
    } else {
        Some(secs as u64)
    }
}

pub const DEFAULT_DAEMON_CLIENT_READ_TIMEOUT_SECS: u64 = 120;

pub const DEFAULT_DAEMON_BUILD_READ_TIMEOUT_SECS: u64 = 0;

pub const DEFAULT_DAEMON_CLIENT_WRITE_TIMEOUT_SECS: u64 = 30;

/// How long a client waits for the daemon's answer to a control request.
pub fn daemon_control_read_timeout(raw: Option<&str>) -> (t: Option<u64>)
    ensures
        t == timeout_setting(raw_view(raw), DEFAULT_DAEMON_CLIENT_READ_TIMEOUT_SECS),
{
    timeout_duration_from_secs(parse_env_u64(raw, DEFAULT_DAEMON_CLIENT_READ_TIMEOUT_SECS))
}

/// How long a client waits for the daemon's answer to a build (by default
/// without limit).
pub fn daemon_build_read_timeout(raw: Option<&str>) -> (t: Option<u64>)
    ensures
        t == timeout_setting(raw_view(raw), DEFAULT_DAEMON_BUILD_READ_TIMEOUT_SECS),
{
    timeout_duration_from_secs(parse_env_u64(raw, DEFAULT_DAEMON_BUILD_READ_TIMEOUT_SECS))
}

/// How long a client waits to hand a request to the daemon.
pub fn daemon_client_write_timeout(raw: Option<&str>) -> (t: Option<u64>)
    ensures
        t == timeout_setting(raw_view(raw), DEFAULT_DAEMON_CLIENT_WRITE_TIMEOUT_SECS),
{
    timeout_duration_from_secs(parse_env_u64(raw, DEFAULT_DAEMON_CLIENT_WRITE_TIMEOUT_SECS))
}

/// The write timeout of every daemon request.
pub fn daemon_request_write_timeout(raw: Option<&str>) -> (t: Option<u64>)
    ensures
        t == timeout_setting(raw_view(raw), DEFAULT_DAEMON_CLIENT_WRITE_TIMEOUT_SECS),
{
    daemon_client_write_timeout(raw)
}

/// The read timeout of a daemon request: builds have their own.
pub fn daemon_request_read_timeout(
    is_build_request: bool,
    build_raw: Option<&str>,
    control_raw: Option<&str>,
) -> (t: Option<u64>)
    ensures
        t == (if is_build_request {
            timeout_setting(raw_view(build_raw), DEFAULT_DAEMON_BUILD_READ_TIMEOUT_SECS)
        } else {
            timeout_setting(raw_view(control_raw), DEFAULT_DAEMON_CLIENT_READ_TIMEOUT_SECS)
        }),
{
    if is_build_request {
        daemon_build_read_timeout(build_raw)
    } else {
        daemon_control_read_timeout(control_raw)
    }
}

/// Largest daemon request line, in bytes.
pub const DAEMON_REQUEST_SIZE_LIMIT_BYTES: usize = 1024 * 1024;

/// Room for the response envelope beyond the captured output, in bytes.
pub const DAEMON_RESPONSE_SIZE_OVERHEAD_BYTES: u64 = 8 * 1024 * 1024;

/// The default daemon response limit: both capture limits and the envelope.
pub const DEFAULT_DAEMON_RESPONSE_SIZE_LIMIT_BYTES: usize = 40 * 1024 * 1024;

/// The largest daemon response a client reads: the configured limit, but
/// never less than the captured output limits plus the envelope (summed with
/// saturation) nor less than the request limit.
pub open spec fn response_size_limit(configured: nat, stdout_limit: u64, stderr_limit: u64) -> nat {
    let sum = stdout_limit as int + stderr_limit as int + DAEMON_RESPONSE_SIZE_OVERHEAD_BYTES as int;
    let minimum = if sum > usize::MAX {
        usize::MAX as int
    } else {
        sum
    };
    let a = if configured >= minimum {
        configured as int
    } else {
        minimum
    };
    (if a >= DAEMON_REQUEST_SIZE_LIMIT_BYTES {
        a
    } else {
        DAEMON_REQUEST_SIZE_LIMIT_BYTES as int
    }) as nat
}

/// The largest daemon response a client reads.
pub fn daemon_response_size_limit_bytes(raw: Option<&str>, stdout_limit: u64, stderr_limit: u64) -> (v:
    usize)
    ensures
        v == response_size_limit(
            setting_number(raw_view(raw), DEFAULT_DAEMON_RESPONSE_SIZE_LIMIT_BYTES as nat, usize::MAX as nat),
            stdout_limit,
            stderr_limit,
        ),
{
    let configured = parse_env_usize(raw, DEFAULT_DAEMON_RESPONSE_SIZE_LIMIT_BYTES);
    let sum = stdout_limit.saturating_add(stderr_limit).saturating_add(
        DAEMON_RESPONSE_SIZE_OVERHEAD_BYTES,
    );
    let minimum: usize = if sum > usize::MAX as u64 {
        usize::MAX
    } else {
        sum as usize
    };
    let a = if configured >= minimum {
        configured
    } else {
        minimum
    };
    if a >= DAEMON_REQUEST_SIZE_LIMIT_BYTES {
        a
    } else {
        DAEMON_REQUEST_SIZE_LIMIT_BYTES
    }
}

/// Daemon build requests capture output unless they say otherwise.
pub fn default_daemon_capture_output() -> (b: bool)
    ensures
        b,
{
    true
}

/// Whether phase timings are logged: only when the setting, trimmed and
/// lowercased, reads `1`, `true`, `yes` or `on`.
pub fn should_log_phase_telemetry(raw: Option<&str>) -> (b: bool)
    ensures
        b == setting_bool(raw_view(raw), false),
{
    match raw {
        Some(_) => parse_env_bool(raw, false),
        None => false,
    }
}

} // verus!
