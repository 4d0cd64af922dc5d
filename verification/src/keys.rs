use vstd::prelude::*;
use crate::fingerprint::{append_sorted_features, features_bytes, opt_view, string_views};
use crate::hashing::{append_bytes, blake3_hex, blake3_hex_digest};
use crate::modes::BuildCompileBackend;
use crate::native_plan::{decimal, decimal_string};
use crate::paths::{normalize_fingerprint_path, normalized_path};
use crate::protocol::{BuildCommonArgs, MetadataArgs};
use crate::strorder::sorted_distinct;
use crate::surface::{copy_str, strings_view};
use crate::text::{chars_of, push_str, str_eq, string_from_range, trim, trim_range};
use crate::versions::{find_char_from_pub, lemma_next_index_of_pub, next_index_of};
use vstd::utf8::encode_utf8;

verus! {

/// The inputs that identify a build session.
#[derive(Debug, Clone)]
pub struct SessionInput {
    pub compiler_version: String,
    pub profile: String,
    pub offline: bool,
    pub package: Option<String>,
    pub features: Vec<String>,
    pub cfg_set: Vec<String>,
    pub manifest_content_hash: String,
    pub target_family: String,
    pub cairo_edition: Option<String>,
    pub cairo_lang_version: Option<String>,
    pub build_env_fingerprint: String,
}

/// The package a build selects, `*` for none.
pub open spec fn package_token(p: Option<String>) -> Seq<char> {
    match p {
        Some(x) => x@,
        None => "*"@,
    }
}

/// One of two words, by a flag.
pub open spec fn flag_word(b: bool, yes: Seq<char>, no: Seq<char>) -> Seq<char> {
    if b {
        yes
    } else {
        no
    }
}

/// The name of a compile backend in keys.
pub open spec fn backend_word(b: BuildCompileBackend) -> Seq<char> {
    match b {
        BuildCompileBackend::Scarb => "scarb"@,
        BuildCompileBackend::Native => "native"@,
    }
}

/// The build options shared by the daemon's plan and session keys: profile,
/// package, workspace, offline and release flags, and the distinct sorted
/// features.
pub open spec fn build_options_bytes(common: BuildCommonArgs, profile: Seq<char>) -> Seq<u8> {
    encode_utf8(profile) + encode_utf8(package_token(common.package)) + encode_utf8(
        flag_word(common.workspace, "workspace"@, "package"@),
    ) + encode_utf8(flag_word(common.offline, "offline"@, "online"@)) + encode_utf8(
        flag_word(common.release, "release"@, "dev"@),
    ) + features_bytes(sorted_distinct(string_views(common.features@).to_set()))
}

fn append_build_options(data: &mut Vec<u8>, common: &BuildCommonArgs, profile: &str)
    ensures
        final(data)@ == old(data)@ + build_options_bytes(*common, profile@),
{
    let ghost start = data@;
    append_bytes(data, profile.as_bytes());
    match &common.package {
        Some(p) => append_bytes(data, p.as_str().as_bytes()),
        None => append_bytes(data, "*".as_bytes()),
    }
    if common.workspace {
        append_bytes(data, "workspace".as_bytes());
    } else {
        append_bytes(data, "package".as_bytes());
    }
    if common.offline {
        append_bytes(data, "offline".as_bytes());
    } else {
        append_bytes(data, "online".as_bytes());
    }
    if common.release {
        append_bytes(data, "release".as_bytes());
    } else {
        append_bytes(data, "dev".as_bytes());
    }
    append_sorted_features(data, &common.features);
    assert(data@ =~= start + build_options_bytes(*common, profile@));
}

/// What the daemon build plan cache key hashes.
pub open spec fn build_plan_key_input(
    manifest_key: Seq<char>,
    backend: BuildCompileBackend,
    compiler_version: Seq<char>,
    build_env_fingerprint: Seq<char>,
    common: BuildCommonArgs,
    profile: Seq<char>,
) -> Seq<u8> {
    encode_utf8("uc-daemon-build-plan-cache-v1"@) + encode_utf8(manifest_key) + encode_utf8(
        backend_word(backend),
    ) + encode_utf8(compiler_version) + encode_utf8(build_env_fingerprint)
        + build_options_bytes(common, profile)
}

/// The key of the daemon's build plan cache for a build.
pub fn daemon_build_plan_cache_key(
    common: &BuildCommonArgs,
    manifest_path: &str,
    profile: &str,
    compile_backend: BuildCompileBackend,
    compiler_version: &str,
    build_env_fingerprint: &str,
) -> (k: String)
    ensures
        crate::hashing::is_hex_digest(k@),
        k@ == blake3_hex_digest(
            build_plan_key_input(
                normalized_path(manifest_path@),
                compile_backend,
                compiler_version@,
                build_env_fingerprint@,
                *common,
                profile@,
            ),
        ),
{
    let mut data: Vec<u8> = Vec::new();
    append_bytes(&mut data, "uc-daemon-build-plan-cache-v1".as_bytes());
    let key = normalize_fingerprint_path(manifest_path);
    append_bytes(&mut data, key.as_str().as_bytes());
    match compile_backend {
        BuildCompileBackend::Scarb => append_bytes(&mut data, "scarb".as_bytes()),
        BuildCompileBackend::Native => append_bytes(&mut data, "native".as_bytes()),
    }
    append_bytes(&mut data, compiler_version.as_bytes());
    append_bytes(&mut data, build_env_fingerprint.as_bytes());
    append_build_options(&mut data, common, profile);
    blake3_hex(data.as_slice())
}

/// What the session input cache key hashes.
pub open spec fn session_input_key_input(
    manifest_key: Seq<char>,
    compiler_version: Seq<char>,
    build_env_fingerprint: Seq<char>,
    common: BuildCommonArgs,
    profile: Seq<char>,
) -> Seq<u8> {
    encode_utf8("uc-session-input-cache-v1"@) + encode_utf8(manifest_key) + encode_utf8(
        compiler_version,
    ) + encode_utf8(build_env_fingerprint) + build_options_bytes(common, profile)
}

/// The key of the session input cache for a build.
pub fn session_input_cache_key(
    common: &BuildCommonArgs,
    manifest_path: &str,
    profile: &str,
    compiler_version: &str,
    build_env_fingerprint: &str,
) -> (k: String)
    ensures
        crate::hashing::is_hex_digest(k@),
        k@ == blake3_hex_digest(
            session_input_key_input(
                normalized_path(manifest_path@),
                compiler_version@,
                build_env_fingerprint@,
                *common,
                profile@,
            ),
        ),
{
    let mut data: Vec<u8> = Vec::new();
    append_bytes(&mut data, "uc-session-input-cache-v1".as_bytes());
    let key = normalize_fingerprint_path(manifest_path);
    append_bytes(&mut data, key.as_str().as_bytes());
    append_bytes(&mut data, compiler_version.as_bytes());
    append_bytes(&mut data, build_env_fingerprint.as_bytes());
    append_build_options(&mut data, common, profile);
    blake3_hex(data.as_slice())
}

/// What the metadata result cache key hashes.
pub open spec fn metadata_key_input(
    manifest_key: Seq<char>,
    format_version: u32,
    global_cache_dir: Option<Seq<char>>,
    scarb_version: Seq<char>,
    build_env_fingerprint: Seq<char>,
) -> Seq<u8> {
    encode_utf8("uc-metadata-result-cache-v2"@) + encode_utf8(manifest_key) + encode_utf8(
        decimal(format_version as nat),
    ) + encode_utf8(
        match global_cache_dir {
            Some(d) => normalized_path(d),
            None => "*"@,
        },
    ) + encode_utf8(scarb_version) + encode_utf8(build_env_fingerprint)
}

/// The key of the metadata result cache for a `uc metadata` run.
pub fn metadata_result_cache_key(
    args: &MetadataArgs,
    manifest_path: &str,
    scarb_version: &str,
    build_env_fingerprint: &str,
) -> (k: String)
    ensures
        crate::hashing::is_hex_digest(k@),
        k@ == blake3_hex_digest(
            metadata_key_input(
                normalized_path(manifest_path@),
                args.format_version,
                opt_view(args.global_cache_dir),
                scarb_version@,
                build_env_fingerprint@,
            ),
        ),
{
    let mut data: Vec<u8> = Vec::new();
    append_bytes(&mut data, "uc-metadata-result-cache-v2".as_bytes());
    let key = normalize_fingerprint_path(manifest_path);
    append_bytes(&mut data, key.as_str().as_bytes());
    let v = decimal_string(args.format_version as u64);
    append_bytes(&mut data, v.as_str().as_bytes());
    match &args.global_cache_dir {
        Some(d) => {
            let n = normalize_fingerprint_path(d.as_str());
            append_bytes(&mut data, n.as_str().as_bytes());
        },
        None => append_bytes(&mut data, "*".as_bytes()),
    }
    append_bytes(&mut data, scarb_version.as_bytes());
    append_bytes(&mut data, build_env_fingerprint.as_bytes());
    blake3_hex(data.as_slice())
}

/// The content hash of a manifest: `manifest-blake3:` and the digest of its
/// bytes.
pub fn compute_manifest_content_hash_bytes(bytes: &[u8]) -> (h: String)
    ensures
        h@ == "manifest-blake3:"@ + blake3_hex_digest(bytes@),
{
    let mut h = String::from_str("manifest-blake3:");
    let d = blake3_hex(bytes);
    push_str(&mut h, d.as_str());
    h
}

/// The content hash of a lockfile: `lock-blake3:` and the digest of a
/// domain tag followed by its bytes.
pub fn lock_content_hash(bytes: &[u8]) -> (h: String)
    ensures
        h@ == "lock-blake3:"@ + blake3_hex_digest(encode_utf8("uc-scarb-lock-v1"@) + bytes@),
{
    let mut data: Vec<u8> = Vec::new();
    append_bytes(&mut data, "uc-scarb-lock-v1".as_bytes());
    append_bytes(&mut data, bytes);
    let mut h = String::from_str("lock-blake3:");
    let d = blake3_hex(data.as_slice());
    push_str(&mut h, d.as_str());
    h
}

/// What the daemon build plan invalidation key hashes.
pub open spec fn invalidation_key_input(input: SessionInput, lock_hash: Seq<char>) -> Seq<u8> {
    encode_utf8("uc-daemon-build-plan-invalidation-v1"@) + encode_utf8(input.compiler_version@)
        + encode_utf8(input.build_env_fingerprint@) + encode_utf8(input.manifest_content_hash@)
        + encode_utf8(input.profile@) + encode_utf8(input.target_family@) + encode_utf8(
        flag_word(input.offline, "offline"@, "online"@),
    ) + encode_utf8(package_token(input.package)) + features_bytes(
        sorted_distinct(string_views(input.features@).to_set()),
    ) + encode_utf8(lock_hash)
}

/// The key under which a cached daemon build plan stays valid: the session
/// inputs and the lockfile's hash.
pub fn daemon_build_plan_invalidation_key(input: &SessionInput, lock_hash: &str) -> (k: String)
    ensures
        crate::hashing::is_hex_digest(k@),
        k@ == blake3_hex_digest(invalidation_key_input(*input, lock_hash@)),
{
    let mut data: Vec<u8> = Vec::new();
    append_bytes(&mut data, "uc-daemon-build-plan-invalidation-v1".as_bytes());
    append_bytes(&mut data, input.compiler_version.as_str().as_bytes());
    append_bytes(&mut data, input.build_env_fingerprint.as_str().as_bytes());
    append_bytes(&mut data, input.manifest_content_hash.as_str().as_bytes());
    append_bytes(&mut data, input.profile.as_str().as_bytes());
    append_bytes(&mut data, input.target_family.as_str().as_bytes());
    if input.offline {
        append_bytes(&mut data, "offline".as_bytes());
    } else {
        append_bytes(&mut data, "online".as_bytes());
    }
    match &input.package {
        Some(p) => append_bytes(&mut data, p.as_str().as_bytes()),
        None => append_bytes(&mut data, "*".as_bytes()),
    }
    append_sorted_features(&mut data, &input.features);
    append_bytes(&mut data, lock_hash.as_bytes());
    blake3_hex(data.as_slice())
}

} // verus!
