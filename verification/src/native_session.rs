use vstd::prelude::*;
use vstd::bytes::{spec_u64_to_le_bytes, u64_to_le_bytes};
use vstd::utf8::encode_utf8;
use crate::errors::{plain_error, ErrorKind, UcError};
use crate::hashing::{append_bytes, blake3_hex, blake3_hex_digest};
use crate::impact::{native_compile_session_estimated_heap_bytes, saturating_mul_add};
use crate::native_plan::NativeTrackedFileState;
use crate::paths::{normalize_fingerprint_path, normalized_path};
use crate::strorder::{sorted_distinct, str_lt, str_lt_exec};
use crate::surface::{chars_views, sorted_strings, strings_view, CrateDependencyConfig, PathDependencyRoot};
use crate::text::{chars_of, push_str};

verus! {

/// The bytes one tracked file adds to the tracked sources signature: its
/// key, size and modification time (little-endian).
pub open spec fn tracked_entry_bytes(e: (String, NativeTrackedFileState)) -> Seq<u8> {
    encode_utf8(e.0@) + spec_u64_to_le_bytes(e.1.size_bytes) + spec_u64_to_le_bytes(
        e.1.modified_unix_ms,
    )
}

pub open spec fn tracked_entries_bytes(v: Seq<(String, NativeTrackedFileState)>) -> Seq<u8>
    decreases v.len(),
{
    if v.len() == 0 {
        Seq::empty()
    } else {
        tracked_entries_bytes(v.drop_last()) + tracked_entry_bytes(v.last())
    }
}

/// The signature of a set of tracked source files (in key order): the
/// BLAKE3 digest of a domain tag and each file's key, size and
/// modification time.
pub fn native_tracked_sources_signature(tracked_sources: &Vec<(String, NativeTrackedFileState)>) -> (s:
    String)
    ensures
        crate::hashing::is_hex_digest(s@),
        s@ == blake3_hex_digest(
            encode_utf8("uc-native-tracked-sources-signature-v1"@) + tracked_entries_bytes(
                tracked_sources@,
            ),
        ),
{
    let mut data: Vec<u8> = Vec::new();
    append_bytes(&mut data, "uc-native-tracked-sources-signature-v1".as_bytes());
    let ghost head = data@;
    let mut i: usize = 0;
    while i < tracked_sources.len()
        invariant
            i <= tracked_sources@.len(),
            data@ == head + tracked_entries_bytes(tracked_sources@.take(i as int)),
        decreases tracked_sources@.len() - i,
    {
        append_bytes(&mut data, tracked_sources[i].0.as_str().as_bytes());
        let size = u64_to_le_bytes(tracked_sources[i].1.size_bytes);
        append_bytes(&mut data, size.as_slice());
        let modified = u64_to_le_bytes(tracked_sources[i].1.modified_unix_ms);
        append_bytes(&mut data, modified.as_slice());
        assert(tracked_sources@.take(i + 1).drop_last() =~= tracked_sources@.take(i as int));
        assert(data@ =~= head + tracked_entries_bytes(tracked_sources@.take(i + 1)));
        i = i + 1;
    }
    assert(tracked_sources@.take(i as int) =~= tracked_sources@);
    blake3_hex(data.as_slice())
}

/// The order of sort keys made of a name and an optional second part:
/// by name, then a missing second part first, then by second part.
pub open spec fn key_lt(a: (Seq<char>, Option<Seq<char>>), b: (Seq<char>, Option<Seq<char>>)) -> bool {
    str_lt(a.0, b.0) || (a.0 == b.0 && match (a.1, b.1) {
        (None, Some(_)) => true,
        (Some(x), Some(y)) => str_lt(x, y),
        _ => false,
    })
}

/// Index `x` put into a stably sorted list of indices: after every index
/// whose key is not greater than its own.
pub open spec fn stable_insert(order: Seq<int>, x: int, keys: Seq<(Seq<char>, Option<Seq<char>>)>) -> Seq<
    int,
>
    decreases order.len(),
{
    if order.len() == 0 {
        seq![x]
    } else if key_lt(keys[x], keys[order.last()]) {
        stable_insert(order.drop_last(), x, keys).push(order.last())
    } else {
        order.push(x)
    }
}

/// The indices of the first `n` keys in stably sorted order: by key, and
/// keys that are equal in their original order.
pub open spec fn stable_order(keys: Seq<(Seq<char>, Option<Seq<char>>)>, n: int) -> Seq<int>
    decreases n,
{
    if n <= 0 {
        Seq::empty()
    } else {
        stable_insert(stable_order(keys, n - 1), n - 1, keys)
    }
}

/// How many entries `x` moves past from the back when it is inserted.
pub open spec fn back_pos(order: Seq<int>, x: int, keys: Seq<(Seq<char>, Option<Seq<char>>)>) -> int
    decreases order.len(),
{
    if order.len() == 0 {
        0
    } else if key_lt(keys[x], keys[order.last()]) {
        back_pos(order.drop_last(), x, keys)
    } else {
        order.len() as int
    }
}

proof fn lemma_stable_insert_at(order: Seq<int>, x: int, keys: Seq<(Seq<char>, Option<Seq<char>>)>)
    ensures
        0 <= back_pos(order, x, keys) <= order.len(),
        stable_insert(order, x, keys) == order.take(back_pos(order, x, keys)).push(x) + order.skip(
            back_pos(order, x, keys),
        ),
    decreases order.len(),
{
    if order.len() == 0 {
        assert(order.take(0).push(x) + order.skip(0) =~= seq![x]);
    } else if key_lt(keys[x], keys[order.last()]) {
        let d = order.drop_last();
        lemma_stable_insert_at(d, x, keys);
        let p = back_pos(d, x, keys);
        assert(d.take(p) =~= order.take(p));
        assert((d.take(p).push(x) + d.skip(p)).push(order.last()) =~= order.take(p).push(x)
            + order.skip(p));
    } else {
        assert(order.take(order.len() as int).push(x) + order.skip(order.len() as int) =~= order.push(
            x,
        ));
    }
}

fn key_lt_exec(a: &(Vec<char>, Option<Vec<char>>), b: &(Vec<char>, Option<Vec<char>>)) -> (r: bool)
    ensures
        r == key_lt((a.0@, opt_chars(a.1)), (b.0@, opt_chars(b.1))),
{
    if str_lt_exec(&a.0, &b.0) {
        return true;
    }
    if a.0.len() != b.0.len() || str_lt_exec(&b.0, &a.0) {
        proof {
            if a.0@ == b.0@ {
                crate::strorder::lemma_str_lt_irreflexive(a.0@);
            }
        }
        if a.0.len() != b.0.len() {
            assert(a.0@ != b.0@);
        }
        return false;
    }
    proof {
        if a.0@ != b.0@ {
            crate::strorder::lemma_str_lt_total(a.0@, b.0@);
        }
    }
    match (&a.1, &b.1) {
        (None, Some(_)) => true,
        (Some(x), Some(y)) => str_lt_exec(x, y),
        _ => false,
    }
}

pub open spec fn opt_chars(o: Option<Vec<char>>) -> Option<Seq<char>> {
    match o {
        Some(v) => Some(v@),
        None => None,
    }
}

pub open spec fn keys_view(keys: Seq<(Vec<char>, Option<Vec<char>>)>) -> Seq<(Seq<char>, Option<Seq<char>>)> {
    keys.map_values(|k: (Vec<char>, Option<Vec<char>>)| (k.0@, opt_chars(k.1)))
}

pub open spec fn order_view(order: Seq<usize>) -> Seq<int> {
    order.map_values(|i: usize| i as int)
}

/// The indices of `keys` in stably sorted order.
pub fn stable_sort_indices(keys: &Vec<(Vec<char>, Option<Vec<char>>)>) -> (order: Vec<usize>)
    ensures
        order_view(order@) == stable_order(keys_view(keys@), keys@.len() as int),
        forall|k: int| 0 <= k < order@.len() ==> #[trigger] order@[k] < keys@.len(),
{
    let ghost kv = keys_view(keys@);
    let mut order: Vec<usize> = Vec::new();
    let mut i: usize = 0;
    while i < keys.len()
        invariant
            i <= keys@.len(),
            kv == keys_view(keys@),
            order_view(order@) == stable_order(kv, i as int),
            forall|k: int| 0 <= k < order@.len() ==> #[trigger] order@[k] < i,
            order@.len() == i,
        decreases keys@.len() - i,
    {
        let ghost ov = order_view(order@);
        let mut p: usize = order.len();
        assert(ov.take(p as int) =~= ov);
        while p > 0 && key_lt_exec(&keys[i], &keys[order[p - 1]])
            invariant
                p <= order@.len(),
                i < keys@.len(),
                kv == keys_view(keys@),
                ov == order_view(order@),
                forall|k: int| 0 <= k < order@.len() ==> #[trigger] order@[k] < i,
                back_pos(ov, i as int, kv) == back_pos(ov.take(p as int), i as int, kv),
            decreases p,
        {
            assert(ov.take(p as int).drop_last() =~= ov.take(p - 1));
            assert(ov.take(p as int).last() == order@[p - 1] as int);
            assert(kv[order@[p - 1] as int] == (keys@[order@[p - 1] as int].0@, opt_chars(
                keys@[order@[p - 1] as int].1,
            )));
            p = p - 1;
        }
        proof {
            assert(kv[i as int] == (keys@[i as int].0@, opt_chars(keys@[i as int].1)));
            if p > 0 {
                assert(ov.take(p as int).last() == order@[p - 1] as int);
                assert(kv[order@[p - 1] as int] == (keys@[order@[p - 1] as int].0@, opt_chars(
                    keys@[order@[p - 1] as int].1,
                )));
                assert(back_pos(ov.take(p as int), i as int, kv) == p);
            } else {
                assert(ov.take(0) =~= Seq::<int>::empty());
            }
            lemma_stable_insert_at(ov, i as int, kv);
        }
        let ghost before = order@;
        order.insert(p, i);
        proof {
            assert(order_view(order@) =~= ov.take(p as int).push(i as int) + ov.skip(p as int));
            assert forall|k: int| 0 <= k < order@.len() implies #[trigger] order@[k] < i + 1 by {
                if k < p {
                    assert(order@[k] == before[k]);
                } else if k > p {
                    assert(order@[k] == before[k - 1]);
                }
            }
        }
        i = i + 1;
    }
    order
}

/// The settings of the Starknet contract target: whether Sierra and CASM
/// artifacts are built.
#[derive(Clone, Copy, Debug, PartialEq, Eq, Structural)]
pub struct NativeStarknetTargetProps {
    pub sierra: bool,
    pub casm: bool,
}

/// What a native build compiles: the package and crate, its source and
/// project directories, the core library, the Starknet target settings,
/// the manifest's content hash, and the dependencies the build needs.
#[derive(Debug)]
pub struct NativeCompileContext {
    pub package_name: String,
    pub crate_name: String,
    pub main_source_root: String,
    pub workspace_mode_supported: bool,
    pub cairo_project_dir: String,
    pub corelib_src: String,
    pub starknet_target: NativeStarknetTargetProps,
    pub manifest_content_hash: String,
    pub external_non_starknet_dependencies: Vec<String>,
    pub path_dependency_roots: Vec<PathDependencyRoot>,
    pub crate_dependency_configs: Vec<CrateDependencyConfig>,
}

/// What decides whether a compile session can be reused: the manifest
/// path, its content hash, and the compile context.
#[derive(Debug)]
pub struct NativeCompileSessionSignature {
    pub manifest_path: String,
    pub manifest_content_hash: String,
    pub context: NativeCompileContext,
}

/// `1` for on, `0` for off.
pub open spec fn flag_digit(on: bool) -> Seq<char> {
    if on {
        "1"@
    } else {
        "0"@
    }
}

/// Each string with a tag before it, as UTF-8 bytes.
pub open spec fn tagged_bytes(items: Seq<Seq<char>>, tag: Seq<char>) -> Seq<u8>
    decreases items.len(),
{
    if items.len() == 0 {
        Seq::empty()
    } else {
        tagged_bytes(items.drop_last(), tag) + encode_utf8(tag) + encode_utf8(items.last())
    }
}

/// How a path dependency root enters the signature: `name=path`.
pub open spec fn root_entry(r: PathDependencyRoot) -> Seq<char> {
    r.crate_name@ + "="@ + normalized_path(r.source_root@)
}

pub open spec fn root_entries(v: Seq<PathDependencyRoot>) -> Seq<Seq<char>> {
    v.map_values(|r: PathDependencyRoot| root_entry(r))
}

/// The sort key of a crate's dependency settings: its name, then its
/// edition.
pub open spec fn config_key(c: CrateDependencyConfig) -> (Seq<char>, Option<Seq<char>>) {
    (
        c.crate_name@,
        match c.cairo_edition {
            Some(e) => Some(e@),
            None => None,
        },
    )
}

pub open spec fn config_keys(v: Seq<CrateDependencyConfig>) -> Seq<(Seq<char>, Option<Seq<char>>)> {
    v.map_values(|c: CrateDependencyConfig| config_key(c))
}

/// How one crate's dependency settings enter the signature: a tag, the
/// name, `=`, the edition (empty when none), then each distinct dependency
/// in sorted order after a comma.
pub open spec fn config_bytes(c: CrateDependencyConfig) -> Seq<u8> {
    encode_utf8("\x1fcfg\x1f"@) + encode_utf8(c.crate_name@) + encode_utf8("="@) + encode_utf8(
        match c.cairo_edition {
            Some(e) => e@,
            None => Seq::empty(),
        },
    ) + tagged_bytes(sorted_distinct(strings_view(c.dependencies@).to_set()), ","@)
}

/// The settings of the crates taken in the given order.
pub open spec fn configs_bytes(v: Seq<CrateDependencyConfig>, order: Seq<int>) -> Seq<u8>
    decreases order.len(),
{
    if order.len() == 0 {
        Seq::empty()
    } else {
        configs_bytes(v, order.drop_last()) + config_bytes(v[order.last()])
    }
}

/// What the compile session signature hashes: a domain tag, the manifest
/// path and content hash, the package and crate names, the project and
/// core library directories, the Sierra and CASM flags, the distinct
/// external dependencies, the distinct `name=path` dependency roots (each
/// sorted, each with its tag), and each crate's dependency settings,
/// stably sorted by name and edition.
pub open spec fn signature_bytes(s: NativeCompileSessionSignature) -> Seq<u8> {
    let c = s.context;
    encode_utf8("uc-native-session-image-signature-v1"@) + encode_utf8(
        normalized_path(s.manifest_path@),
    ) + encode_utf8(s.manifest_content_hash@) + encode_utf8(c.package_name@) + encode_utf8(
        c.crate_name@,
    ) + encode_utf8(normalized_path(c.cairo_project_dir@)) + encode_utf8(
        normalized_path(c.corelib_src@),
    ) + encode_utf8(flag_digit(c.starknet_target.sierra)) + encode_utf8(
        flag_digit(c.starknet_target.casm),
    ) + tagged_bytes(
        sorted_distinct(strings_view(c.external_non_starknet_dependencies@).to_set()),
        "\x1fdep\x1f"@,
    ) + tagged_bytes(
        sorted_distinct(root_entries(c.path_dependency_roots@).to_set()),
        "\x1froot\x1f"@,
    ) + configs_bytes(
        c.crate_dependency_configs@,
        stable_order(
            config_keys(c.crate_dependency_configs@),
            c.crate_dependency_configs@.len() as int,
        ),
    )
}

fn append_tagged_sorted(data: &mut Vec<u8>, items: &Vec<Vec<char>>, tag: &str)
    ensures
        final(data)@ == old(data)@ + tagged_bytes(sorted_distinct(chars_views(items@).to_set()), tag@),
{
    let sorted = sorted_strings(items);
    let ghost sv = strings_view(sorted@);
    let ghost head = data@;
    let mut i: usize = 0;
    while i < sorted.len()
        invariant
            i <= sorted@.len(),
            sv == strings_view(sorted@),
            data@ == head + tagged_bytes(sv.take(i as int), tag@),
        decreases sorted@.len() - i,
    {
        append_bytes(data, tag.as_bytes());
        append_bytes(data, sorted[i].as_str().as_bytes());
        assert(sv.take(i + 1).drop_last() =~= sv.take(i as int));
        assert(data@ =~= head + tagged_bytes(sv.take(i + 1), tag@));
        i = i + 1;
    }
    assert(sv.take(i as int) =~= sv);
}

fn strings_chars(v: &Vec<String>) -> (c: Vec<Vec<char>>)
    ensures
        chars_views(c@) == strings_view(v@),
{
    let mut c: Vec<Vec<char>> = Vec::new();
    let mut i: usize = 0;
    while i < v.len()
        invariant
            i <= v@.len(),
            chars_views(c@) == strings_view(v@).take(i as int),
        decreases v@.len() - i,
    {
        let ghost before = c@;
        c.push(chars_of(v[i].as_str()));
        assert(chars_views(c@) =~= chars_views(before).push(v@[i as int]@));
        assert(strings_view(v@).take(i + 1) =~= strings_view(v@).take(i as int).push(v@[i as int]@));
        i = i + 1;
    }
    assert(strings_view(v@).take(i as int) =~= strings_view(v@));
    c
}

fn append_config(data: &mut Vec<u8>, c: &CrateDependencyConfig)
    ensures
        final(data)@ == old(data)@ + config_bytes(*c),
{
    let ghost head = data@;
    append_bytes(data, "\x1fcfg\x1f".as_bytes());
    append_bytes(data, c.crate_name.as_str().as_bytes());
    append_bytes(data, "=".as_bytes());
    match &c.cairo_edition {
        Some(e) => append_bytes(data, e.as_str().as_bytes()),
        None => append_bytes(data, "".as_bytes()),
    }
    proof {
        reveal_strlit("");
        assert(encode_utf8(Seq::<char>::empty()) =~= Seq::<u8>::empty());
    }
    let deps = strings_chars(&c.dependencies);
    append_tagged_sorted(data, &deps, ",");
}

/// The signature of a compile session: the BLAKE3 digest of what decides
/// whether it can be reused.
pub fn native_compile_session_signature_hash(signature: &NativeCompileSessionSignature) -> (h: String)
    ensures
        crate::hashing::is_hex_digest(h@),
        h@ == blake3_hex_digest(signature_bytes(*signature)),
{
    let c = &signature.context;
    let mut data: Vec<u8> = Vec::new();
    append_bytes(&mut data, "uc-native-session-image-signature-v1".as_bytes());
    let manifest = normalize_fingerprint_path(signature.manifest_path.as_str());
    append_bytes(&mut data, manifest.as_str().as_bytes());
    append_bytes(&mut data, signature.manifest_content_hash.as_str().as_bytes());
    append_bytes(&mut data, c.package_name.as_str().as_bytes());
    append_bytes(&mut data, c.crate_name.as_str().as_bytes());
    let project = normalize_fingerprint_path(c.cairo_project_dir.as_str());
    append_bytes(&mut data, project.as_str().as_bytes());
    let corelib = normalize_fingerprint_path(c.corelib_src.as_str());
    append_bytes(&mut data, corelib.as_str().as_bytes());
    if c.starknet_target.sierra {
        append_bytes(&mut data, "1".as_bytes());
    } else {
        append_bytes(&mut data, "0".as_bytes());
    }
    if c.starknet_target.casm {
        append_bytes(&mut data, "1".as_bytes());
    } else {
        append_bytes(&mut data, "0".as_bytes());
    }
    let deps = strings_chars(&c.external_non_starknet_dependencies);
    append_tagged_sorted(&mut data, &deps, "\x1fdep\x1f");
    let mut roots: Vec<Vec<char>> = Vec::new();
    let mut r: usize = 0;
    while r < c.path_dependency_roots.len()
        invariant
            r <= c.path_dependency_roots@.len(),
            chars_views(roots@) == root_entries(c.path_dependency_roots@).take(r as int),
        decreases c.path_dependency_roots@.len() - r,
    {
        let root = &c.path_dependency_roots[r];
        let mut entry = crate::surface::copy_str(root.crate_name.as_str());
        push_str(&mut entry, "=");
        let normalized = normalize_fingerprint_path(root.source_root.as_str());
        push_str(&mut entry, normalized.as_str());
        let ghost before = roots@;
        roots.push(chars_of(entry.as_str()));
        assert(chars_views(roots@) =~= chars_views(before).push(root_entry(*root)));
        assert(root_entries(c.path_dependency_roots@).take(r + 1) =~= root_entries(
            c.path_dependency_roots@,
        ).take(r as int).push(root_entry(*root)));
        r = r + 1;
    }
    assert(root_entries(c.path_dependency_roots@).take(r as int) =~= root_entries(
        c.path_dependency_roots@,
    ));
    append_tagged_sorted(&mut data, &roots, "\x1froot\x1f");
    let configs = &c.crate_dependency_configs;
    let mut keys: Vec<(Vec<char>, Option<Vec<char>>)> = Vec::new();
    let mut k: usize = 0;
    while k < configs.len()
        invariant
            k <= configs@.len(),
            keys_view(keys@) == config_keys(configs@).take(k as int),
        decreases configs@.len() - k,
    {
        let edition = match &configs[k].cairo_edition {
            Some(e) => Some(chars_of(e.as_str())),
            None => None,
        };
        let ghost before = keys@;
        keys.push((chars_of(configs[k].crate_name.as_str()), edition));
        assert(keys_view(keys@) =~= keys_view(before).push(config_key(configs@[k as int])));
        assert(config_keys(configs@).take(k + 1) =~= config_keys(configs@).take(k as int).push(
            config_key(configs@[k as int]),
        ));
        k = k + 1;
    }
    assert(config_keys(configs@).take(k as int) =~= config_keys(configs@));
    let order = stable_sort_indices(&keys);
    let ghost ov = order_view(order@);
    let ghost head = data@;
    let mut m: usize = 0;
    while m < order.len()
        invariant
            m <= order@.len(),
            ov == order_view(order@),
            keys@.len() == configs@.len(),
            forall|q: int| 0 <= q < order@.len() ==> #[trigger] order@[q] < keys@.len(),
            data@ == head + configs_bytes(configs@, ov.take(m as int)),
        decreases order@.len() - m,
    {
        append_config(&mut data, &configs[order[m]]);
        assert(ov.take(m + 1).drop_last() =~= ov.take(m as int));
        assert(ov.take(m + 1).last() == order@[m as int] as int);
        m = m + 1;
    }
    assert(ov.take(m as int) =~= ov);
    proof {
        assert(chars_views(deps@) == strings_view(c.external_non_starknet_dependencies@));
    }
    assert(data@ =~= signature_bytes(*signature));
    blake3_hex(data.as_slice())
}


/// The UTF-8 length of a string.
pub open spec fn byte_len(s: Seq<char>) -> int {
    encode_utf8(s).len() as int
}

/// The UTF-8 length of an optional string, 0 when there is none.
pub open spec fn opt_byte_len(s: Option<String>) -> int {
    match s {
        Some(x) => byte_len(x@),
        None => 0,
    }
}

/// The byte lengths of strings, summed.
pub open spec fn lens_sum(v: Seq<Seq<char>>) -> int
    decreases v.len(),
{
    if v.len() == 0 {
        0
    } else {
        lens_sum(v.drop_last()) + byte_len(v.last())
    }
}

proof fn lemma_lens_sum_nonneg(v: Seq<Seq<char>>)
    ensures
        lens_sum(v) >= 0,
    decreases v.len(),
{
    if v.len() > 0 {
        lemma_lens_sum_nonneg(v.drop_last());
    }
}

/// The bytes a path dependency root accounts for: its crate name and its
/// normalised source root.
pub open spec fn roots_bytes(v: Seq<PathDependencyRoot>) -> int
    decreases v.len(),
{
    if v.len() == 0 {
        0
    } else {
        roots_bytes(v.drop_last()) + byte_len(v.last().crate_name@) + byte_len(
            normalized_path(v.last().source_root@),
        )
    }
}

/// The bytes a crate's dependency settings account for: name, edition and
/// dependency names.
pub open spec fn config_size(c: CrateDependencyConfig) -> int {
    byte_len(c.crate_name@) + opt_byte_len(c.cairo_edition) + lens_sum(strings_view(c.dependencies@))
}

pub open spec fn configs_size(v: Seq<CrateDependencyConfig>) -> int
    decreases v.len(),
{
    if v.len() == 0 {
        0
    } else {
        configs_size(v.drop_last()) + config_size(v.last())
    }
}

/// The estimated size of a compile context: the byte lengths of its names,
/// hashes, dependency names and normalised paths.
pub open spec fn context_size(c: NativeCompileContext) -> int {
    byte_len(normalized_path(c.cairo_project_dir@)) + byte_len(normalized_path(c.corelib_src@))
        + byte_len(normalized_path(c.main_source_root@)) + byte_len(c.package_name@) + byte_len(
        c.crate_name@,
    ) + byte_len(c.manifest_content_hash@) + lens_sum(
        strings_view(c.external_non_starknet_dependencies@),
    ) + roots_bytes(c.path_dependency_roots@) + configs_size(c.crate_dependency_configs@)
}

/// `n`, or `u64::MAX` when it is larger.
pub open spec fn sat_int(n: int) -> int {
    if n > u64::MAX {
        u64::MAX as int
    } else {
        n
    }
}

proof fn lemma_saturated_step(a: int, b: int)
    requires
        a >= 0,
        b >= 0,
    ensures
        sat_int(sat_int(a) + b) == sat_int(a + b),
{
}

fn add_len(total: u64, s: &str) -> (t: u64)
    ensures
        t == sat_int(total + byte_len(s@)),
{
    let n = s.as_bytes().len();
    total.saturating_add(n as u64)
}

fn add_strings(total: u64, v: &Vec<String>) -> (t: u64)
    ensures
        t == sat_int(total + lens_sum(strings_view(v@))),
{
    let mut t = total;
    let mut i: usize = 0;
    while i < v.len()
        invariant
            i <= v@.len(),
            t == sat_int(total + lens_sum(strings_view(v@).take(i as int))),
        decreases v@.len() - i,
    {
        assert(strings_view(v@).take(i + 1).drop_last() =~= strings_view(v@).take(i as int));
        assert(strings_view(v@).take(i + 1).last() == v@[i as int]@);
        proof {
            lemma_saturated_step(total + lens_sum(strings_view(v@).take(i as int)), byte_len(v@[i as int]@));
        }
        t = add_len(t, v[i].as_str());
        i = i + 1;
    }
    assert(strings_view(v@).take(i as int) =~= strings_view(v@));
    t
}

/// The estimated size of a compile context in bytes (saturating at
/// `u64::MAX`).
pub fn native_compile_context_estimated_bytes(context: &NativeCompileContext) -> (b: u64)
    ensures
        b == sat_int(context_size(*context)),
{
    let c = context;
    let p1 = normalize_fingerprint_path(c.cairo_project_dir.as_str());
    let p2 = normalize_fingerprint_path(c.corelib_src.as_str());
    let p3 = normalize_fingerprint_path(c.main_source_root.as_str());
    let ghost a1 = byte_len(p1@);
    let ghost a2 = a1 + byte_len(p2@);
    let ghost a3 = a2 + byte_len(p3@);
    let ghost a4 = a3 + byte_len(c.package_name@);
    let ghost a5 = a4 + byte_len(c.crate_name@);
    let ghost a6 = a5 + byte_len(c.manifest_content_hash@);
    let mut t: u64 = 0;
    t = add_len(t, p1.as_str());
    proof {
        lemma_saturated_step(a1, byte_len(p2@));
    }
    t = add_len(t, p2.as_str());
    proof {
        lemma_saturated_step(a2, byte_len(p3@));
    }
    t = add_len(t, p3.as_str());
    proof {
        lemma_saturated_step(a3, byte_len(c.package_name@));
    }
    t = add_len(t, c.package_name.as_str());
    proof {
        lemma_saturated_step(a4, byte_len(c.crate_name@));
    }
    t = add_len(t, c.crate_name.as_str());
    proof {
        lemma_saturated_step(a5, byte_len(c.manifest_content_hash@));
    }
    t = add_len(t, c.manifest_content_hash.as_str());
    proof {
        lemma_lens_sum_nonneg(strings_view(c.external_non_starknet_dependencies@));
        lemma_saturated_step(a6, lens_sum(strings_view(c.external_non_starknet_dependencies@)));
    }
    t = add_strings(t, &c.external_non_starknet_dependencies);
    let ghost base = byte_len(normalized_path(c.cairo_project_dir@)) + byte_len(
        normalized_path(c.corelib_src@),
    ) + byte_len(normalized_path(c.main_source_root@)) + byte_len(c.package_name@) + byte_len(
        c.crate_name@,
    ) + byte_len(c.manifest_content_hash@) + lens_sum(
        strings_view(c.external_non_starknet_dependencies@),
    );
    assert(t == sat_int(base));
    let roots = &c.path_dependency_roots;
    let mut r: usize = 0;
    while r < roots.len()
        invariant
            r <= roots@.len(),
            t == sat_int(base + roots_bytes(roots@.take(r as int))),
        decreases roots@.len() - r,
    {
        assert(roots@.take(r + 1).drop_last() =~= roots@.take(r as int));
        let n = normalize_fingerprint_path(roots[r].source_root.as_str());
        proof {
            lemma_saturated_step(base + roots_bytes(roots@.take(r as int)), byte_len(roots@[r as int].crate_name@));
        }
        t = add_len(t, roots[r].crate_name.as_str());
        proof {
            lemma_saturated_step(
                base + roots_bytes(roots@.take(r as int)) + byte_len(roots@[r as int].crate_name@),
                byte_len(n@),
            );
        }
        t = add_len(t, n.as_str());
        r = r + 1;
    }
    assert(roots@.take(r as int) =~= roots@);
    let ghost base2 = base + roots_bytes(roots@);
    let configs = &c.crate_dependency_configs;
    let mut k: usize = 0;
    while k < configs.len()
        invariant
            k <= configs@.len(),
            t == sat_int(base2 + configs_size(configs@.take(k as int))),
        decreases configs@.len() - k,
    {
        assert(configs@.take(k + 1).drop_last() =~= configs@.take(k as int));
        let cfg = &configs[k];
        let ghost acc = base2 + configs_size(configs@.take(k as int));
        proof {
            lemma_saturated_step(acc, byte_len(cfg.crate_name@));
        }
        t = add_len(t, cfg.crate_name.as_str());
        let ghost ed: int = opt_byte_len(cfg.cairo_edition);
        proof {
            lemma_saturated_step(acc + byte_len(cfg.crate_name@), ed);
        }
        match &cfg.cairo_edition {
            Some(e) => {
                t = add_len(t, e.as_str());
            },
            None => {},
        }
        proof {
            lemma_lens_sum_nonneg(strings_view(cfg.dependencies@));
            lemma_saturated_step(acc + byte_len(cfg.crate_name@) + ed, lens_sum(strings_view(cfg.dependencies@)));
        }
        t = add_strings(t, &cfg.dependencies);
        k = k + 1;
    }
    assert(configs@.take(k as int) =~= configs@);
    t
}

/// Where a contract's artifacts go: its module path, artifact id, package
/// and contract names, and its Sierra (and maybe CASM) file names.
#[derive(Debug, Clone)]
pub struct NativeContractOutputPlan {
    pub mod_path: String,
    pub artifact_id: String,
    pub package_name: String,
    pub contract_name: String,
    pub artifact_file: String,
    pub casm_file: Option<String>,
}

/// The bytes a contract output plan accounts for.
pub open spec fn plan_size(p: NativeContractOutputPlan) -> int {
    byte_len(p.mod_path@) + byte_len(p.artifact_id@) + byte_len(p.package_name@) + byte_len(
        p.contract_name@,
    ) + byte_len(p.artifact_file@) + opt_byte_len(p.casm_file)
}

pub open spec fn plans_size(v: Seq<NativeContractOutputPlan>) -> int
    decreases v.len(),
{
    if v.len() == 0 {
        0
    } else {
        plans_size(v.drop_last()) + plan_size(v.last())
    }
}

/// The bytes the contracts' source dependencies account for: each module
/// path and its dependency names.
pub open spec fn deps_size(v: Seq<(String, Vec<String>)>) -> int
    decreases v.len(),
{
    if v.len() == 0 {
        0
    } else {
        deps_size(v.drop_last()) + byte_len(v.last().0@) + lens_sum(strings_view(v.last().1@))
    }
}

/// The estimated size of a compile session's state: the estimated heap of
/// its sources, 96 bytes per tracked file, and the sizes of its source
/// dependencies and output plans, summed with saturation.
pub open spec fn session_state_size(
    tracked_source_count: nat,
    heap_bytes: u64,
    deps: Seq<(String, Vec<String>)>,
    plans: Seq<NativeContractOutputPlan>,
) -> int {
    sat_int(heap_bytes + tracked_source_count * 96 + deps_size(deps) + plans_size(plans))
}

/// The estimated size of a compile session's state in bytes.
pub fn native_compile_session_state_estimated_bytes(
    tracked_source_count: usize,
    tracked_source_bytes: u64,
    contract_source_dependencies: &Vec<(String, Vec<String>)>,
    contract_output_plans: &Vec<NativeContractOutputPlan>,
    memory_multiplier: u64,
    base_overhead_bytes: u64,
) -> (b: u64)
    requires
        tracked_source_count * 96 <= u64::MAX,
    ensures
        b == session_state_size(
            tracked_source_count as nat,
            saturating_mul_add(tracked_source_bytes, memory_multiplier, base_overhead_bytes),
            contract_source_dependencies@,
            contract_output_plans@,
        ),
{
    let heap = native_compile_session_estimated_heap_bytes(
        tracked_source_bytes,
        memory_multiplier,
        base_overhead_bytes,
    );
    let meta = (tracked_source_count as u64) * 96;
    let mut t: u64 = heap.saturating_add(meta);
    let ghost base = heap + meta;
    let deps = contract_source_dependencies;
    let mut i: usize = 0;
    while i < deps.len()
        invariant
            i <= deps@.len(),
            t == sat_int(base + deps_size(deps@.take(i as int))),
        decreases deps@.len() - i,
    {
        assert(deps@.take(i + 1).drop_last() =~= deps@.take(i as int));
        let ghost acc = base + deps_size(deps@.take(i as int));
        proof {
            lemma_saturated_step(acc, byte_len(deps@[i as int].0@));
        }
        t = add_len(t, deps[i].0.as_str());
        proof {
            lemma_lens_sum_nonneg(strings_view(deps@[i as int].1@));
            lemma_saturated_step(acc + byte_len(deps@[i as int].0@), lens_sum(strings_view(deps@[i as int].1@)));
        }
        t = add_strings(t, &deps[i].1);
        i = i + 1;
    }
    assert(deps@.take(i as int) =~= deps@);
    let ghost base2 = base + deps_size(deps@);
    let plans = contract_output_plans;
    let mut k: usize = 0;
    while k < plans.len()
        invariant
            k <= plans@.len(),
            t == sat_int(base2 + plans_size(plans@.take(k as int))),
        decreases plans@.len() - k,
    {
        assert(plans@.take(k + 1).drop_last() =~= plans@.take(k as int));
        let p = &plans[k];
        let ghost acc = base2 + plans_size(plans@.take(k as int));
        proof {
            lemma_saturated_step(acc, byte_len(p.mod_path@));
        }
        t = add_len(t, p.mod_path.as_str());
        proof {
            lemma_saturated_step(acc + byte_len(p.mod_path@), byte_len(p.artifact_id@));
        }
        t = add_len(t, p.artifact_id.as_str());
        proof {
            lemma_saturated_step(acc + byte_len(p.mod_path@) + byte_len(p.artifact_id@), byte_len(p.package_name@));
        }
        t = add_len(t, p.package_name.as_str());
        proof {
            lemma_saturated_step(
                acc + byte_len(p.mod_path@) + byte_len(p.artifact_id@) + byte_len(p.package_name@),
                byte_len(p.contract_name@),
            );
        }
        t = add_len(t, p.contract_name.as_str());
        proof {
            lemma_saturated_step(
                acc + byte_len(p.mod_path@) + byte_len(p.artifact_id@) + byte_len(p.package_name@)
                    + byte_len(p.contract_name@),
                byte_len(p.artifact_file@),
            );
        }
        t = add_len(t, p.artifact_file.as_str());
        let ghost cz: int = opt_byte_len(p.casm_file);
        proof {
            lemma_saturated_step(
                acc + byte_len(p.mod_path@) + byte_len(p.artifact_id@) + byte_len(p.package_name@)
                    + byte_len(p.contract_name@) + byte_len(p.artifact_file@),
                cz,
            );
        }
        match &p.casm_file {
            Some(c) => {
                t = add_len(t, c.as_str());
            },
            None => {},
        }
        k = k + 1;
    }
    assert(plans@.take(k as int) =~= plans@);
    t
}


/// Listing a context's external dependencies or path dependency roots in
/// another order, or some of them twice, does not change the session
/// signature: only which ones there are counts.
pub proof fn lemma_signature_ignores_dependency_order(
    a: NativeCompileSessionSignature,
    b: NativeCompileSessionSignature,
)
    requires
        a.manifest_path@ == b.manifest_path@,
        a.manifest_content_hash@ == b.manifest_content_hash@,
        a.context.package_name@ == b.context.package_name@,
        a.context.crate_name@ == b.context.crate_name@,
        a.context.cairo_project_dir@ == b.context.cairo_project_dir@,
        a.context.corelib_src@ == b.context.corelib_src@,
        a.context.starknet_target == b.context.starknet_target,
        a.context.crate_dependency_configs@ == b.context.crate_dependency_configs@,
        strings_view(a.context.external_non_starknet_dependencies@).to_set() == strings_view(
            b.context.external_non_starknet_dependencies@,
        ).to_set(),
        root_entries(a.context.path_dependency_roots@).to_set() == root_entries(
            b.context.path_dependency_roots@,
        ).to_set(),
    ensures
        signature_bytes(a) == signature_bytes(b),
{
}


/// A Cairo file found under a crate cache root: its path relative to the
/// root (with forward slashes), size, modification time and change time.
pub open spec fn root_file_bytes(f: (String, u64, u64, u64)) -> Seq<u8> {
    encode_utf8(f.0@) + spec_u64_to_le_bytes(f.1) + spec_u64_to_le_bytes(f.2) + spec_u64_to_le_bytes(
        f.3,
    )
}

pub open spec fn root_files_bytes(files: Seq<(String, u64, u64, u64)>, order: Seq<int>) -> Seq<u8>
    decreases order.len(),
{
    if order.len() == 0 {
        Seq::empty()
    } else {
        root_files_bytes(files, order.drop_last()) + root_file_bytes(files[order.last()])
    }
}

pub open spec fn path_keys(files: Seq<(String, u64, u64, u64)>) -> Seq<(Seq<char>, Option<Seq<char>>)> {
    files.map_values(|f: (String, u64, u64, u64)| (f.0@, None::<Seq<char>>))
}

/// What the crate cache root fingerprint hashes: a domain tag, the root,
/// the number of files, and each file (stably sorted by path) with its
/// size and times.
pub open spec fn crate_cache_root_bytes(root: Seq<char>, files: Seq<(String, u64, u64, u64)>) -> Seq<u8> {
    encode_utf8("uc-native-crate-cache-root-fingerprint-v1"@) + encode_utf8(normalized_path(root))
        + spec_u64_to_le_bytes(files.len() as u64) + root_files_bytes(
        files,
        stable_order(path_keys(files), files.len() as int),
    )
}

/// The fingerprint of a crate cache root from the Cairo files found under
/// it (`files`, in the order the walk found them), refused when there are
/// more than `max_files` of them.
pub fn native_crate_cache_root_fingerprint(
    root: &str,
    files: &Vec<(String, u64, u64, u64)>,
    max_files: usize,
) -> (r: Result<String, UcError>)
    ensures
        files@.len() > max_files ==> r is Err && (r->Err_0.kind matches ErrorKind::NativeCrateCacheRootTooManyFiles {
            limit,
        } && limit == max_files),
        files@.len() <= max_files ==> r is Ok && r->Ok_0@ == blake3_hex_digest(
            crate_cache_root_bytes(root@, files@),
        ),
        r matches Ok(h) ==> crate::hashing::is_hex_digest(h@),
{
    if files.len() > max_files {
        return Err(plain_error(ErrorKind::NativeCrateCacheRootTooManyFiles { limit: max_files }));
    }
    let mut keys: Vec<(Vec<char>, Option<Vec<char>>)> = Vec::new();
    let mut k: usize = 0;
    while k < files.len()
        invariant
            k <= files@.len(),
            keys_view(keys@) == path_keys(files@).take(k as int),
        decreases files@.len() - k,
    {
        let ghost before = keys@;
        keys.push((chars_of(files[k].0.as_str()), None));
        assert(keys_view(keys@) =~= keys_view(before).push((files@[k as int].0@, None::<Seq<char>>)));
        assert(path_keys(files@).take(k + 1) =~= path_keys(files@).take(k as int).push(
            (files@[k as int].0@, None::<Seq<char>>),
        ));
        k = k + 1;
    }
    assert(path_keys(files@).take(k as int) =~= path_keys(files@));
    let order = stable_sort_indices(&keys);
    let ghost ov = order_view(order@);
    let mut data: Vec<u8> = Vec::new();
    append_bytes(&mut data, "uc-native-crate-cache-root-fingerprint-v1".as_bytes());
    let normalized = normalize_fingerprint_path(root);
    append_bytes(&mut data, normalized.as_str().as_bytes());
    let count = u64_to_le_bytes(files.len() as u64);
    append_bytes(&mut data, count.as_slice());
    let ghost head = data@;
    let mut m: usize = 0;
    while m < order.len()
        invariant
            m <= order@.len(),
            ov == order_view(order@),
            keys@.len() == files@.len(),
            forall|q: int| 0 <= q < order@.len() ==> #[trigger] order@[q] < keys@.len(),
            data@ == head + root_files_bytes(files@, ov.take(m as int)),
        decreases order@.len() - m,
    {
        let f = &files[order[m]];
        append_bytes(&mut data, f.0.as_str().as_bytes());
        let a = u64_to_le_bytes(f.1);
        append_bytes(&mut data, a.as_slice());
        let b = u64_to_le_bytes(f.2);
        append_bytes(&mut data, b.as_slice());
        let c = u64_to_le_bytes(f.3);
        append_bytes(&mut data, c.as_slice());
        assert(ov.take(m + 1).drop_last() =~= ov.take(m as int));
        assert(ov.take(m + 1).last() == order@[m as int] as int);
        assert(data@ =~= head + root_files_bytes(files@, ov.take(m + 1)));
        m = m + 1;
    }
    assert(ov.take(m as int) =~= ov);
    assert(data@ =~= crate_cache_root_bytes(root@, files@));
    Ok(blake3_hex(data.as_slice()))
}


/// The key of a crate cache entry: the BLAKE3 digest of a domain tag, the
/// session signature and the crate's cache key.
pub fn native_crate_cache_entry_hash(signature_hash: &str, crate_cache_key: &str) -> (h: String)
    ensures
        crate::hashing::is_hex_digest(h@),
        h@ == blake3_hex_digest(
            encode_utf8("uc-native-crate-cache-entry-v1"@) + encode_utf8(signature_hash@)
                + encode_utf8("\x1f"@) + encode_utf8(crate_cache_key@),
        ),
{
    let mut data: Vec<u8> = Vec::new();
    append_bytes(&mut data, "uc-native-crate-cache-entry-v1".as_bytes());
    append_bytes(&mut data, signature_hash.as_bytes());
    append_bytes(&mut data, "\x1f".as_bytes());
    append_bytes(&mut data, crate_cache_key.as_bytes());
    blake3_hex(data.as_slice())
}

/// The source roots of a compile context: the main one, then each path
/// dependency's.
pub open spec fn all_source_roots(c: NativeCompileContext) -> Seq<Seq<char>> {
    seq![c.main_source_root@] + c.path_dependency_roots@.map_values(
        |r: PathDependencyRoot| r.source_root@,
    )
}

pub open spec fn normalized_keys(v: Seq<Seq<char>>) -> Seq<(Seq<char>, Option<Seq<char>>)> {
    v.map_values(|p: Seq<char>| (normalized_path(p), None::<Seq<char>>))
}

/// A sequence with every element whose normalised form equals that of the
/// element before it dropped.
pub open spec fn dedup_normalized(s: Seq<Seq<char>>) -> Seq<Seq<char>>
    decreases s.len(),
{
    if s.len() <= 1 {
        s
    } else if normalized_path(s.last()) == normalized_path(s[s.len() - 2]) {
        dedup_normalized(s.drop_last())
    } else {
        dedup_normalized(s.drop_last()).push(s.last())
    }
}

/// The source roots a compile session watches: the main source root and
/// the path dependencies' roots, stably sorted by normalised path, with
/// roots that normalise alike kept once (the first).
pub open spec fn compile_source_roots(c: NativeCompileContext) -> Seq<Seq<char>> {
    let all = all_source_roots(c);
    let order = stable_order(normalized_keys(all), all.len() as int);
    dedup_normalized(order.map_values(|i: int| all[i]))
}

/// The source roots of a compile context, sorted, each once.
pub fn native_compile_source_roots(context: &NativeCompileContext) -> (roots: Vec<String>)
    ensures
        strings_view(roots@) == compile_source_roots(*context),
{
    let ghost all_spec = all_source_roots(*context);
    let mut all: Vec<String> = Vec::new();
    all.push(crate::surface::copy_str(context.main_source_root.as_str()));
    assert(strings_view(all@) =~= all_spec.take(1));
    let deps = &context.path_dependency_roots;
    let mut i: usize = 0;
    while i < deps.len()
        invariant
            i <= deps@.len(),
            deps@ == context.path_dependency_roots@,
            all_spec == all_source_roots(*context),
            strings_view(all@) == all_spec.take(i + 1),
        decreases deps@.len() - i,
    {
        let ghost before = all@;
        assert(all_spec.len() == deps@.len() + 1);
        assert(all_spec[i + 1] == deps@[i as int].source_root@);
        all.push(crate::surface::copy_str(deps[i].source_root.as_str()));
        assert(strings_view(all@) =~= strings_view(before).push(deps@[i as int].source_root@));
        assert(all_spec.take(i + 2) =~= all_spec.take(i + 1).push(all_spec[i + 1]));
        i = i + 1;
    }
    assert(all_spec.len() == deps@.len() + 1);
    assert(all_spec.take(i + 1) =~= all_spec);
    let mut keys: Vec<(Vec<char>, Option<Vec<char>>)> = Vec::new();
    let mut normals: Vec<String> = Vec::new();
    let mut k: usize = 0;
    while k < all.len()
        invariant
            k <= all@.len(),
            strings_view(all@) == all_spec,
            keys_view(keys@) == normalized_keys(all_spec).take(k as int),
            normals@.len() == k,
            forall|q: int| 0 <= q < k ==> (#[trigger] normals@[q])@ == normalized_path(all_spec[q]),
        decreases all@.len() - k,
    {
        let n = normalize_fingerprint_path(all[k].as_str());
        let ghost before = keys@;
        keys.push((chars_of(n.as_str()), None));
        normals.push(n);
        assert(keys_view(keys@) =~= keys_view(before).push((normalized_path(all_spec[k as int]), None::<Seq<char>>)));
        assert(normalized_keys(all_spec).take(k + 1) =~= normalized_keys(all_spec).take(k as int).push(
            (normalized_path(all_spec[k as int]), None::<Seq<char>>),
        ));
        k = k + 1;
    }
    assert(normalized_keys(all_spec).take(k as int) =~= normalized_keys(all_spec));
    let order = stable_sort_indices(&keys);
    let ghost ov = order_view(order@);
    let ghost sorted = ov.map_values(|q: int| all_spec[q]);
    let mut roots: Vec<String> = Vec::new();
    let mut m: usize = 0;
    while m < order.len()
        invariant
            m <= order@.len(),
            ov == order_view(order@),
            sorted == ov.map_values(|q: int| all_spec[q]),
            strings_view(all@) == all_spec,
            keys@.len() == all@.len(),
            normals@.len() == all@.len(),
            forall|q: int| 0 <= q < all@.len() ==> (#[trigger] normals@[q])@ == normalized_path(all_spec[q]),
            forall|q: int| 0 <= q < order@.len() ==> #[trigger] order@[q] < keys@.len(),
            strings_view(roots@) == dedup_normalized(sorted.take(m as int)),
        decreases order@.len() - m,
    {
        let idx = order[m];
        assert(sorted[m as int] == all_spec[idx as int]);
        assert(all_spec[idx as int] == all@[idx as int]@);
        let keep = if m == 0 {
            true
        } else {
            let prev = order[m - 1];
            assert(sorted[m - 1] == all_spec[prev as int]);
            !crate::text::str_eq(normals[idx].as_str(), normals[prev].as_str())
        };
        let ghost before = roots@;
        proof {
            let t = sorted.take(m + 1);
            assert(t.drop_last() =~= sorted.take(m as int));
            assert(t.last() == sorted[m as int]);
            if m > 0 {
                assert(t[m - 1] == sorted[m - 1]);
            } else {
                assert(t.len() == 1);
            }
        }
        if keep {
            roots.push(crate::surface::copy_str(all[idx].as_str()));
            assert(strings_view(roots@) =~= strings_view(before).push(all_spec[idx as int]));
        }
        m = m + 1;
    }
    assert(sorted.take(m as int) =~= sorted);
    roots
}

} // verus!
